//! Value objects shared by the whole crate: monetary amounts, transaction
//! events, and the error type surfaced to callers.

pub mod error;
pub mod event;
pub mod money;
