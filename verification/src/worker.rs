//! The processing side of the crate: one handler per event kind, the
//! dispatcher that routes events to them, and the proved laws of the whole
//! state machine.

pub mod handlers;
pub mod laws;
pub mod processor;
