//! The ledger's data model: accounts, transaction records, and the ledger
//! aggregate that owns both maps.

pub mod account;
pub mod ledger;
pub mod transaction;
