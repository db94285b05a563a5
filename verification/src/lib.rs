pub mod amount;
pub mod account;
pub mod account_map;
pub mod transaction;
pub mod operation;
pub mod ledger;
