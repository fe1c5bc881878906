//! Errors of the terminal session subsystem.

use vstd::prelude::*;

verus! {

/// What can go wrong in the terminal session subsystem.
///
/// Creation-time failures (`InvalidConfiguration`, `SpawnFailure`) are
/// returned synchronously to the caller and the session never enters the
/// registry. `NotFound` is returned by every operation that names a session
/// id absent from the registry. `StreamFailure` and `PartialWriteFailure`
/// have no waiting caller: they are carried by worker events instead.
#[derive(Clone, Copy, Debug, PartialEq, Eq, Structural)]
pub enum TerminalError {
    /// Bad working directory or unsupported platform shell.
    InvalidConfiguration,
    /// The host refused to allocate a PTY or to spawn the shell process.
    SpawnFailure,
    /// The session id is absent from the registry: it never existed, was
    /// already closed, or its worker finished and was reaped.
    NotFound,
    /// A PTY read or write error ended the session while it was running.
    StreamFailure,
    /// A transient input-write error while the PTY is still alive.
    PartialWriteFailure,
}

impl TerminalError {
    /// A human-readable description of the error.
    pub fn message(&self) -> (r: &'static str)
        ensures
            self is NotFound ==> r@ == "Terminal not found"@,
    {
        match self {
            TerminalError::InvalidConfiguration => "Invalid terminal configuration",
            TerminalError::SpawnFailure => "Failed to spawn shell process",
            TerminalError::NotFound => "Terminal not found",
            TerminalError::StreamFailure => "Terminal stream failed",
            TerminalError::PartialWriteFailure => "Failed to write to terminal",
        }
    }
}

} // verus!
