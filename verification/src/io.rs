//! The computing side of the crate's input boundary: turning one raw row of
//! the input into a validated transaction event.

pub mod rows;
