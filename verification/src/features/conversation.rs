//! The conversation feature: its state machine, wire types, default model
//! choice, the live and fake runners' decisions, and the session that drives
//! one request at a time.
pub mod state;
pub mod wire;
pub mod catalog;
pub mod runner;
pub mod runtime;
