//! Talking to `codex app-server`: requests, replies, events and turns.
pub mod approvals;
pub mod calls;
pub mod events;
pub mod process;
pub mod reader;
pub mod replies;
pub mod requests;
pub mod turns;
pub mod usage;
