//! Two-phase commit: the coordinator, participant and client state machines,
//! their message model and the status lines they report.

pub mod text;
pub mod message;
pub mod tally;
pub mod client;
pub mod participant;
pub mod coordinator;
pub mod laws;
