//! A small ledger that replays a stream of financial transaction events
//! (deposit, withdrawal, dispute, resolve, chargeback) against per-client
//! accounts and exposes the resulting balances.
//!
//! Monetary values are fixed-point: a signed integer number of 1/10,000
//! currency units.  Parsing and formatting are exact; no floating point is
//! involved anywhere.

pub mod common;
pub mod domain;
pub mod io;
pub mod worker;
