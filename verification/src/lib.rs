//! Terminal session subsystem: a registry of pseudo-terminal backed shell
//! sessions, the state machine of the worker that drives one session, and the
//! policy that decides how a shell is spawned.

pub mod channels;
pub mod errors;
pub mod ids;
pub mod manager;
pub mod messages;
pub mod project;
pub mod spawn;
pub mod task;
pub mod worker;
pub mod worktree;

