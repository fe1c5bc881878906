//! Messages that the registry forwards to a session worker over its input
//! queue.

use vstd::prelude::*;

verus! {

/// One request queued for a session worker. The worker applies requests in
/// the order its queue hands them over.
#[derive(Debug, Clone, PartialEq, Eq)]
pub enum WorkerMsg {
    /// Raw input text to write to the PTY controller side.
    Input(String),
    /// A request to change the PTY geometry to (columns, rows).
    Resize(u16, u16),
}

} // verus!
