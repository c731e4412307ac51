//! The error type surfaced by the processing core.
//!
//! Business-rule violations (duplicate ids, bad disputes, locked accounts)
//! are deliberately *not* errors: the handlers treat them as silent no-ops.
//! The variants here cover the structural failures that abort a run.

use vstd::prelude::*;

verus! {

/// Errors surfaced while driving the ledger.
#[derive(Debug, PartialEq, Eq)]
pub enum AppError {
    /// No input path was supplied on the command line.
    MissingArg,
    /// A row of the input could not be turned into an event.
    Parse(String),
    /// An event could not be applied.
    Process(String),
}

} // verus!
