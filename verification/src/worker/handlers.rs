//! The five event handlers.
//!
//! Every business-rule violation (locked account, duplicate id, bad dispute
//! target, insufficient held funds) is a silent no-op, never an error: a
//! malformed replay sequence must not abort processing of the rest of the
//! stream.

pub mod chargeback;
pub mod deposit;
pub mod dispute;
pub mod resolve;
pub mod withdrawal;
