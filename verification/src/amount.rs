//! Monetary amounts: decimal numbers `mantissa / 10^scale`, with the range and
//! precision of `rust_decimal::Decimal`, whose arithmetic does the work.

use vstd::prelude::*;
use vstd::arithmetic::power::*;
use vstd::arithmetic::mul::*;
use rust_decimal::Decimal;

verus! {

/// The largest magnitude of a mantissa: `2^96 - 1`.
pub const MAX_MANTISSA: i128 = 79228162514264337593543950335;

/// The largest number of decimal places.
pub const MAX_SCALE: u32 = 28;

/// A decimal amount, `mantissa / 10^scale`.
///
/// A well-formed amount (`wf`) has `|mantissa| <= 2^96 - 1` and `scale <= 28`,
/// which is exactly what a decimal number of the `rust_decimal` crate can hold.
/// The scale is kept as it is: `1.5` and `1.50` are different representations
/// of one value, and they print differently.
#[derive(Clone, Copy, Debug)]
pub struct Amount {
    pub mantissa: i128,
    pub scale: u32,
}

/// `10^n`.
pub open spec fn pow10(n: nat) -> int {
    pow(10, n)
}

/// What `Decimal::checked_add` returns where the sum has to be rounded to fit.
pub uninterp spec fn decimal_checked_add(a: Amount, b: Amount) -> Option<Amount>;

/// What `Decimal::checked_sub` returns where the difference has to be rounded to fit.
pub uninterp spec fn decimal_checked_sub(a: Amount, b: Amount) -> Option<Amount>;

impl Amount {
    pub open spec fn wf(self) -> bool {
        &&& -MAX_MANTISSA <= self.mantissa <= MAX_MANTISSA
        &&& self.scale <= MAX_SCALE
    }

    /// The value of the amount in units of `10^-28`.
    pub open spec fn value(self) -> int {
        self.mantissa * pow10((MAX_SCALE - self.scale) as nat)
    }

    /// The same amount with the opposite sign.
    pub open spec fn neg(self) -> Amount {
        Amount { mantissa: (-self.mantissa) as i128, scale: self.scale }
    }

    /// The mantissa of the amount written at the larger scale `s`.
    pub open spec fn mantissa_at(self, s: u32) -> int {
        self.mantissa * pow10((s - self.scale) as nat)
    }

    /// Zero, with no decimal places.
    pub fn zero() -> (r: Amount)
        ensures
            r == (Amount { mantissa: 0, scale: 0 }),
            r.wf(),
            r.value() == 0,
    {
        Amount { mantissa: 0, scale: 0 }
    }

    /// The amount `mantissa / 10^scale`, or `None` where a decimal number cannot
    /// hold it.
    pub fn new(mantissa: i128, scale: u32) -> (r: Option<Amount>)
        ensures
            match r {
                Some(a) => a.mantissa == mantissa && a.scale == scale && a.wf(),
                None => !(Amount { mantissa, scale }).wf(),
            },
    {
        if -MAX_MANTISSA <= mantissa && mantissa <= MAX_MANTISSA && scale <= MAX_SCALE {
            Some(Amount { mantissa, scale })
        } else {
            None
        }
    }

    pub fn mantissa(&self) -> (r: i128)
        ensures
            r == self.mantissa,
    {
        self.mantissa
    }

    pub fn scale(&self) -> (r: u32)
        ensures
            r == self.scale,
    {
        self.scale
    }

    /// Whether the amount is below zero.
    pub fn is_sign_negative(&self) -> (r: bool)
        requires
            self.wf(),
        ensures
            r == (self.mantissa < 0),
            r == (self.value() < 0),
    {
        proof {
            lemma_value_sign(*self);
        }
        self.mantissa < 0
    }

    /// `self + other`, or `None` where the sum overflows.
    pub fn checked_add(&self, other: &Amount) -> (r: Option<Amount>)
        requires
            self.wf(),
            other.wf(),
        ensures
            r == amount_add(*self, *other),
            r matches Some(s) ==> s.wf(),
    {
        proof {
            lemma_in_range_not_out(self.value() + other.value());
        }
        decimal_add(*self, *other)
    }

    /// `self - other`, or `None` where the difference overflows.
    pub fn checked_sub(&self, other: &Amount) -> (r: Option<Amount>)
        requires
            self.wf(),
            other.wf(),
        ensures
            r == amount_sub(*self, *other),
            r matches Some(s) ==> s.wf(),
    {
        proof {
            lemma_in_range_not_out(self.value() - other.value());
        }
        decimal_sub(*self, *other)
    }

    /// Whether `self` is less than `other` in value.
    pub fn lt(&self, other: &Amount) -> (r: bool)
        requires
            self.wf(),
            other.wf(),
        ensures
            r == (self.value() < other.value()),
    {
        decimal_lt(*self, *other)
    }
}

/// The larger of the two scales.
pub open spec fn common_scale(a: Amount, b: Amount) -> u32 {
    if a.scale >= b.scale {
        a.scale
    } else {
        b.scale
    }
}

/// The mantissa of `a + b` at the larger of the two scales.
pub open spec fn aligned_sum(a: Amount, b: Amount) -> int {
    a.mantissa_at(common_scale(a, b)) + b.mantissa_at(common_scale(a, b))
}

/// Whether `a + b` is held exactly, with no rounding: one side is zero, or the sum
/// fits at the larger of the two scales.
pub open spec fn sum_is_exact(a: Amount, b: Amount) -> bool {
    a.mantissa == 0 || b.mantissa == 0 || -MAX_MANTISSA <= aligned_sum(a, b) <= MAX_MANTISSA
}

/// The exact sum as a decimal number writes it: the other side where one side is
/// zero, else the sum at the larger of the two scales.
pub open spec fn exact_sum(a: Amount, b: Amount) -> Amount {
    if a.mantissa == 0 {
        b
    } else if b.mantissa == 0 {
        a
    } else {
        Amount { mantissa: aligned_sum(a, b) as i128, scale: common_scale(a, b) }
    }
}

/// The number `m / 10^s` with as few decimal places dropped as bring its mantissa
/// within 96 bits, where each place dropped holds a zero digit; `None` where a
/// non-zero digit would have to go, or no decimal place is left to drop.
pub open spec fn fit_by_dropping(m: int, s: u32) -> Option<Amount>
    decreases s,
{
    if -MAX_MANTISSA <= m <= MAX_MANTISSA {
        Some(Amount { mantissa: m as i128, scale: s })
    } else if s == 0 || m % 10 != 0 {
        None
    } else {
        fit_by_dropping(m / 10, (s - 1) as u32)
    }
}

/// The sum at the larger of the two scales, with zero digits dropped until it fits.
pub open spec fn dropped_sum(a: Amount, b: Amount) -> Option<Amount> {
    fit_by_dropping(aligned_sum(a, b), common_scale(a, b))
}

/// Whether `a + b` comes out with no digit lost: it is held exactly, or dropping
/// zero digits alone brings it within 96 bits.
pub open spec fn sum_is_unrounded(a: Amount, b: Amount) -> bool {
    sum_is_exact(a, b) || dropped_sum(a, b) is Some
}

/// Whether a value lies beyond the range of a decimal number by at least one.
pub open spec fn out_of_range(v: int) -> bool {
    v <= -(MAX_MANTISSA + 1) * pow10(MAX_SCALE as nat) || (MAX_MANTISSA + 1) * pow10(
        MAX_SCALE as nat,
    ) <= v
}

/// Whether a value lies within the range of a decimal number.
pub open spec fn in_range(v: int) -> bool {
    -MAX_MANTISSA * pow10(MAX_SCALE as nat) <= v <= MAX_MANTISSA * pow10(MAX_SCALE as nat)
}

/// What `a + b` gives: the exact sum where it is held exactly, the sum with zero
/// digits dropped where that brings it within 96 bits, a rounded sum where the sum
/// lies within the range, nothing where it lies beyond the range by one or more,
/// and in the narrow band between, whatever the rounding gives.
pub open spec fn amount_add(a: Amount, b: Amount) -> Option<Amount> {
    if sum_is_exact(a, b) {
        Some(exact_sum(a, b))
    } else if dropped_sum(a, b) is Some {
        dropped_sum(a, b)
    } else if in_range(a.value() + b.value()) {
        Some(decimal_checked_add(a, b).unwrap())
    } else if out_of_range(a.value() + b.value()) {
        None
    } else {
        decimal_checked_add(a, b)
    }
}

/// What `a - b` gives, in the same way as `amount_add`.
pub open spec fn amount_sub(a: Amount, b: Amount) -> Option<Amount> {
    if sum_is_exact(a, b.neg()) {
        Some(exact_sum(a, b.neg()))
    } else if dropped_sum(a, b.neg()) is Some {
        dropped_sum(a, b.neg())
    } else if in_range(a.value() - b.value()) {
        Some(decimal_checked_sub(a, b).unwrap())
    } else if out_of_range(a.value() - b.value()) {
        None
    } else {
        decimal_checked_sub(a, b)
    }
}

/// Calls `Decimal::checked_add`. Claimed of it: the sum is exact where one side is
/// zero (the other side comes back as it is) or where the sum fits in 96 bits at
/// the larger scale; where it does not fit there, the scale comes down one place
/// at a time until it does, and a place whose digit is zero goes without rounding,
/// so where only zero digits go the result is the exact sum at that scale; there
/// is a result where the sum lies within the range (it overflows only beyond it);
/// there is no result where the sum is beyond the range by one or more; a result
/// is a well-formed decimal number. What it rounds to where a non-zero digit goes
/// is named, not stated. The amounts go in through
/// `Decimal::from_i128_with_scale` and come back through `mantissa` and `scale`,
/// which keep the mantissa and the scale as they are.
#[verifier::external_body]
fn decimal_add(a: Amount, b: Amount) -> (r: Option<Amount>)
    requires
        a.wf(),
        b.wf(),
    ensures
        sum_is_exact(a, b) ==> r == Some(exact_sum(a, b)),
        !sum_is_exact(a, b) && dropped_sum(a, b) is Some ==> r == dropped_sum(a, b),
        !sum_is_exact(a, b) && out_of_range(a.value() + b.value()) ==> r is None,
        !sum_is_exact(a, b) && !out_of_range(a.value() + b.value()) ==> r == decimal_checked_add(
            a,
            b,
        ),
        in_range(a.value() + b.value()) ==> r is Some,
        r matches Some(s) ==> s.wf(),
{
    let x = Decimal::from_i128_with_scale(a.mantissa, a.scale);
    let y = Decimal::from_i128_with_scale(b.mantissa, b.scale);
    let r = x.checked_add(y);
    r.map(|d| Amount { mantissa: d.mantissa(), scale: d.scale() })
}

/// Calls `Decimal::checked_sub`, with the same claims as `decimal_add` for
/// `a + (-b)`.
#[verifier::external_body]
fn decimal_sub(a: Amount, b: Amount) -> (r: Option<Amount>)
    requires
        a.wf(),
        b.wf(),
    ensures
        sum_is_exact(a, b.neg()) ==> r == Some(exact_sum(a, b.neg())),
        !sum_is_exact(a, b.neg()) && dropped_sum(a, b.neg()) is Some ==> r == dropped_sum(
            a,
            b.neg(),
        ),
        !sum_is_exact(a, b.neg()) && out_of_range(a.value() - b.value()) ==> r is None,
        !sum_is_exact(a, b.neg()) && !out_of_range(a.value() - b.value()) ==> r
            == decimal_checked_sub(a, b),
        in_range(a.value() - b.value()) ==> r is Some,
        r matches Some(s) ==> s.wf(),
{
    let x = Decimal::from_i128_with_scale(a.mantissa, a.scale);
    let y = Decimal::from_i128_with_scale(b.mantissa, b.scale);
    let r = x.checked_sub(y);
    r.map(|d| Amount { mantissa: d.mantissa(), scale: d.scale() })
}

/// Calls `<` on two decimal numbers, which compares their values.
#[verifier::external_body]
fn decimal_lt(a: Amount, b: Amount) -> (r: bool)
    requires
        a.wf(),
        b.wf(),
    ensures
        r == (a.value() < b.value()),
{
    let x = Decimal::from_i128_with_scale(a.mantissa, a.scale);
    let y = Decimal::from_i128_with_scale(b.mantissa, b.scale);
    x < y
}

/// Calls `==` on two decimal numbers, which compares their values.
#[verifier::external_body]
fn decimal_eq(a: Amount, b: Amount) -> (r: bool)
    requires
        a.wf(),
        b.wf(),
    ensures
        r == (a.value() == b.value()),
{
    let x = Decimal::from_i128_with_scale(a.mantissa, a.scale);
    let y = Decimal::from_i128_with_scale(b.mantissa, b.scale);
    x == y
}

impl PartialEq for Amount {
    /// Equality of values: `1.5 == 1.50`. An amount that is not well formed
    /// equals nothing.
    fn eq(&self, other: &Amount) -> (r: bool) {
        if -MAX_MANTISSA <= self.mantissa && self.mantissa <= MAX_MANTISSA && self.scale
            <= MAX_SCALE && -MAX_MANTISSA <= other.mantissa && other.mantissa <= MAX_MANTISSA
            && other.scale <= MAX_SCALE {
            decimal_eq(*self, *other)
        } else {
            false
        }
    }
}

impl Eq for Amount {

}

impl vstd::std_specs::cmp::PartialEqSpecImpl for Amount {
    open spec fn obeys_eq_spec() -> bool {
        true
    }

    open spec fn eq_spec(&self, other: &Amount) -> bool {
        self.wf() && other.wf() && self.value() == other.value()
    }
}

/// `10^n` is positive.
pub proof fn lemma_pow10_positive(n: nat)
    ensures
        pow10(n) > 0,
{
    lemma_pow_positive(10, n);
}

/// The sign of a value is the sign of its mantissa.
pub proof fn lemma_value_sign(a: Amount)
    requires
        a.wf(),
    ensures
        (a.value() < 0) == (a.mantissa < 0),
        (a.value() == 0) == (a.mantissa == 0),
{
    let p = pow10((MAX_SCALE - a.scale) as nat);
    lemma_pow10_positive((MAX_SCALE - a.scale) as nat);
    if a.mantissa < 0 {
        lemma_mul_strictly_positive(-a.mantissa, p);
        assert(a.value() == -((-a.mantissa) * p)) by (nonlinear_arith)
            requires
                a.value() == a.mantissa * p,
        ;
    } else if a.mantissa > 0 {
        lemma_mul_strictly_positive(a.mantissa as int, p);
    } else {
        lemma_mul_by_zero_is_zero(p);
    }
}

/// A mantissa written at a larger scale keeps its value.
pub proof fn lemma_mantissa_at_value(a: Amount, s: u32)
    requires
        a.scale <= s <= MAX_SCALE,
    ensures
        a.mantissa_at(s) * pow10((MAX_SCALE - s) as nat) == a.value(),
{
    let e1 = (s - a.scale) as nat;
    let e2 = (MAX_SCALE - s) as nat;
    lemma_pow_adds(10, e1, e2);
    lemma_mul_is_associative(a.mantissa as int, pow10(e1), pow10(e2));
}

/// The exact sum is well formed and its value is the sum of the values.
pub proof fn lemma_exact_sum(a: Amount, b: Amount)
    requires
        a.wf(),
        b.wf(),
        sum_is_exact(a, b),
    ensures
        exact_sum(a, b).wf(),
        exact_sum(a, b).value() == a.value() + b.value(),
{
    lemma_value_sign(a);
    lemma_value_sign(b);
    if a.mantissa != 0 && b.mantissa != 0 {
        let s = common_scale(a, b);
        let p = pow10((MAX_SCALE - s) as nat);
        lemma_mantissa_at_value(a, s);
        lemma_mantissa_at_value(b, s);
        lemma_mul_is_distributive_add_other_way(p, a.mantissa_at(s), b.mantissa_at(s));
    }
}

/// Negation keeps well-formedness and negates the value.
pub proof fn lemma_neg(a: Amount)
    requires
        a.wf(),
    ensures
        a.neg().wf(),
        a.neg().value() == -a.value(),
{
    let p = pow10((MAX_SCALE - a.scale) as nat);
    assert((-a.mantissa) * p == -(a.mantissa * p)) by (nonlinear_arith);
}

/// A sum beyond the range by one or more is not held exactly, nor brought within
/// 96 bits by dropping zero digits.
pub proof fn lemma_out_of_range_not_exact(a: Amount, b: Amount)
    requires
        a.wf(),
        b.wf(),
        out_of_range(a.value() + b.value()),
    ensures
        !sum_is_exact(a, b),
        !sum_is_unrounded(a, b),
{
    if dropped_sum(a, b) is Some {
        lemma_aligned_sum_value(a, b);
        lemma_fit_by_dropping(aligned_sum(a, b), common_scale(a, b));
        lemma_value_bound(dropped_sum(a, b).unwrap());
        lemma_in_range_not_out(a.value() + b.value());
    }
    let q = pow10(MAX_SCALE as nat);
    lemma_pow10_positive(MAX_SCALE as nat);
    lemma_value_bound(a);
    lemma_value_bound(b);
    lemma_value_sign(a);
    lemma_value_sign(b);
    if sum_is_exact(a, b) {
        let v = a.value() + b.value();
        if a.mantissa != 0 && b.mantissa != 0 {
            let s = common_scale(a, b);
            let p = pow10((MAX_SCALE - s) as nat);
            lemma_exact_sum(a, b);
            let m = aligned_sum(a, b);
            assert(exact_sum(a, b).value() == m * p);
            lemma_pow10_positive((MAX_SCALE - s) as nat);
            lemma_pow_increases(10, (MAX_SCALE - s) as nat, MAX_SCALE as nat);
            assert(-MAX_MANTISSA * q <= m * p <= MAX_MANTISSA * q) by (nonlinear_arith)
                requires
                    -MAX_MANTISSA <= m <= MAX_MANTISSA,
                    0 < p <= q,
            ;
        }
        assert(-MAX_MANTISSA * q <= v <= MAX_MANTISSA * q);
        assert(!out_of_range(v)) by (nonlinear_arith)
            requires
                -MAX_MANTISSA * q <= v <= MAX_MANTISSA * q,
                q > 0,
                out_of_range(v) == (v <= -(MAX_MANTISSA + 1) * q || (MAX_MANTISSA + 1) * q <= v),
        ;
    }
}

/// A value within the range is not beyond it.
pub proof fn lemma_in_range_not_out(v: int)
    ensures
        in_range(v) ==> !out_of_range(v),
        out_of_range(v) ==> !in_range(v),
{
    let q = pow10(MAX_SCALE as nat);
    lemma_pow10_positive(MAX_SCALE as nat);
    assert(in_range(v) ==> !out_of_range(v)) by (nonlinear_arith)
        requires
            q > 0,
            in_range(v) == (-MAX_MANTISSA * q <= v <= MAX_MANTISSA * q),
            out_of_range(v) == (v <= -(MAX_MANTISSA + 1) * q || (MAX_MANTISSA + 1) * q <= v),
    ;
}

/// Where the sum lies within the range, `amount_add` gives a result; likewise
/// `amount_sub` for the difference.
pub proof fn lemma_in_range_gives_result(a: Amount, b: Amount)
    ensures
        in_range(a.value() + b.value()) ==> amount_add(a, b) is Some,
        in_range(a.value() - b.value()) ==> amount_sub(a, b) is Some,
{
}

/// The value of a well-formed amount lies within the range.
pub proof fn lemma_value_bound(a: Amount)
    requires
        a.wf(),
    ensures
        -MAX_MANTISSA * pow10(MAX_SCALE as nat) <= a.value() <= MAX_MANTISSA * pow10(
            MAX_SCALE as nat,
        ),
{
    let p = pow10((MAX_SCALE - a.scale) as nat);
    let q = pow10(MAX_SCALE as nat);
    lemma_pow10_positive((MAX_SCALE - a.scale) as nat);
    lemma_pow_increases(10, (MAX_SCALE - a.scale) as nat, MAX_SCALE as nat);
    let m = a.mantissa as int;
    assert(-MAX_MANTISSA * q <= m * p <= MAX_MANTISSA * q) by (nonlinear_arith)
        requires
            -MAX_MANTISSA <= m <= MAX_MANTISSA,
            0 < p <= q,
    ;
}

/// The sum at the larger scale, read at that scale, is the sum of the values.
pub proof fn lemma_aligned_sum_value(a: Amount, b: Amount)
    requires
        a.wf(),
        b.wf(),
    ensures
        aligned_sum(a, b) * pow10((MAX_SCALE - common_scale(a, b)) as nat) == a.value()
            + b.value(),
{
    let s = common_scale(a, b);
    let p = pow10((MAX_SCALE - s) as nat);
    lemma_mantissa_at_value(a, s);
    lemma_mantissa_at_value(b, s);
    lemma_mul_is_distributive_add_other_way(p, a.mantissa_at(s), b.mantissa_at(s));
}

/// Dropping zero digits keeps the value, and what it gives is well formed.
pub proof fn lemma_fit_by_dropping(m: int, s: u32)
    requires
        s <= MAX_SCALE,
    ensures
        fit_by_dropping(m, s) matches Some(r) ==> r.wf() && r.scale <= s && r.value() == m
            * pow10((MAX_SCALE - s) as nat),
    decreases s,
{
    if -MAX_MANTISSA <= m <= MAX_MANTISSA {
    } else if s == 0 || m % 10 != 0 {
    } else {
        let e = (MAX_SCALE - s) as nat;
        let q = m / 10;
        lemma_fit_by_dropping(q, (s - 1) as u32);
        assert(pow10(e + 1) == 10 * pow10(e)) by {
            reveal(pow);
        }
        assert(m == 10 * q);
        assert(q * (10 * pow10(e)) == m * pow10(e)) by (nonlinear_arith)
            requires
                m == 10 * q,
        ;
    }
}

/// A mantissa that fits, followed by `k` zero digits, is brought back within 96
/// bits by dropping zero digits.
proof fn lemma_fit_multiple(mc: int, sc: u32, k: nat)
    requires
        -MAX_MANTISSA <= mc <= MAX_MANTISSA,
        sc + k <= MAX_SCALE,
    ensures
        fit_by_dropping(mc * pow10(k), (sc + k) as u32) is Some,
    decreases k,
{
    let m = mc * pow10(k);
    if k == 0 {
        lemma_pow0(10);
    } else if !(-MAX_MANTISSA <= m <= MAX_MANTISSA) {
        let k1 = (k - 1) as nat;
        let m1 = mc * pow10(k1);
        assert(pow10(k) == 10 * pow10(k1)) by {
            reveal(pow);
        }
        assert(m == 10 * m1) by (nonlinear_arith)
            requires
                m == mc * pow10(k),
                pow10(k) == 10 * pow10(k1),
                m1 == mc * pow10(k1),
        ;
        assert(m % 10 == 0 && m / 10 == m1);
        lemma_fit_multiple(mc, sc, k1);
        assert(((sc + k) as u32 - 1) as u32 == (sc + k1) as u32);
    }
}

/// Where some well-formed amount has the value `a + b`, the sum comes out with no
/// digit lost.
pub proof fn lemma_representable_sum_unrounded(a: Amount, b: Amount, c: Amount)
    requires
        a.wf(),
        b.wf(),
        c.wf(),
        c.value() == a.value() + b.value(),
    ensures
        sum_is_unrounded(a, b),
{
    if a.mantissa != 0 && b.mantissa != 0 {
        let s = common_scale(a, b);
        let m = aligned_sum(a, b);
        let cm = c.mantissa as int;
        lemma_aligned_sum_value(a, b);
        if c.scale >= s {
            let k = (c.scale - s) as nat;
            let e = (MAX_SCALE - c.scale) as nat;
            let p = pow10(e);
            let q = pow10(k);
            lemma_pow_adds(10, k, e);
            lemma_pow10_positive(e);
            lemma_pow10_positive(k);
            assert(m * (q * p) == cm * p);
            assert(m * q == cm) by (nonlinear_arith)
                requires
                    m * (q * p) == cm * p,
                    p > 0,
            ;
            assert(-MAX_MANTISSA <= m <= MAX_MANTISSA) by (nonlinear_arith)
                requires
                    m * q == cm,
                    q >= 1,
                    -MAX_MANTISSA <= cm <= MAX_MANTISSA,
            ;
        } else {
            let k = (s - c.scale) as nat;
            let e = (MAX_SCALE - s) as nat;
            let p = pow10(e);
            let q = pow10(k);
            lemma_pow_adds(10, k, e);
            lemma_pow10_positive(e);
            assert(m * p == cm * (q * p));
            assert(m == cm * q) by (nonlinear_arith)
                requires
                    m * p == cm * (q * p),
                    p > 0,
            ;
            lemma_fit_multiple(cm, c.scale, k);
            assert((c.scale + k) as u32 == s);
        }
    }
}

/// A sum with no digit lost is a well-formed amount whose value is `a + b`.
pub proof fn lemma_unrounded_sum(a: Amount, b: Amount)
    requires
        a.wf(),
        b.wf(),
        sum_is_unrounded(a, b),
    ensures
        amount_add(a, b) is Some,
        amount_add(a, b).unwrap().wf(),
        amount_add(a, b).unwrap().value() == a.value() + b.value(),
{
    if sum_is_exact(a, b) {
        lemma_exact_sum(a, b);
    } else {
        lemma_aligned_sum_value(a, b);
        lemma_fit_by_dropping(aligned_sum(a, b), common_scale(a, b));
    }
}

/// A difference with no digit lost is a well-formed amount whose value is `a - b`.
pub proof fn lemma_unrounded_difference(a: Amount, b: Amount)
    requires
        a.wf(),
        b.wf(),
        sum_is_unrounded(a, b.neg()),
    ensures
        amount_sub(a, b) is Some,
        amount_sub(a, b).unwrap().wf(),
        amount_sub(a, b).unwrap().value() == a.value() - b.value(),
{
    lemma_neg(b);
    lemma_unrounded_sum(a, b.neg());
}

} // verus!
