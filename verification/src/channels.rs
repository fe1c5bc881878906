//! Trusted declarations of the runtime handles a session owns: the input
//! queue connecting the registry to a session worker, and the completion
//! handle of the worker's unit of execution.
//!
//! The queue and the handle are opaque to verification; every wrapper below
//! states only what holds of every outcome of the call it makes.

use vstd::prelude::*;

use crate::messages::WorkerMsg;

verus! {

/// The sending end of tokio's unbounded channel, held by the registry.
#[verifier::external_type_specification]
#[verifier::external_body]
#[verifier::reject_recursive_types(T)]
pub struct ExUnboundedSender<T>(tokio::sync::mpsc::UnboundedSender<T>);

/// The receiving end of tokio's unbounded channel, held by the worker.
#[verifier::external_type_specification]
#[verifier::external_body]
#[verifier::reject_recursive_types(T)]
pub struct ExUnboundedReceiver<T>(tokio::sync::mpsc::UnboundedReceiver<T>);

/// The error a completion handle reports when its unit of execution
/// panicked or was cancelled.
#[verifier::external_type_specification]
#[verifier::external_body]
pub struct ExJoinError(tokio::task::JoinError);

/// The completion handle of a spawned unit of execution.
#[verifier::external_type_specification]
#[verifier::external_body]
#[verifier::reject_recursive_types(T)]
pub struct ExJoinHandle<T>(tokio::task::JoinHandle<T>);

/// Relies on tokio::sync::mpsc::unbounded_channel: returns a connected
/// sender/receiver pair for a fresh, empty queue. The library also relies on
/// the queue being FIFO — the receiver hands messages out in the order they
/// were sent — which no contract here states.
#[verifier::external_body]
pub(crate) fn new_worker_channel() -> (
    tokio::sync::mpsc::UnboundedSender<WorkerMsg>,
    tokio::sync::mpsc::UnboundedReceiver<WorkerMsg>,
) {
    tokio::sync::mpsc::unbounded_channel()
}

/// Relies on UnboundedSender::send: enqueues the message and returns Ok
/// unless the receiving end has been dropped. Whether the receiver is still
/// alive depends on the worker, so nothing is promised of the outcome.
#[verifier::external_body]
pub(crate) fn channel_send(
    tx: &tokio::sync::mpsc::UnboundedSender<WorkerMsg>,
    msg: WorkerMsg,
) -> bool {
    tx.send(msg).is_ok()
}

/// Relies on JoinHandle::is_finished: true once the unit of execution has
/// completed. The answer depends on the scheduler, so nothing is promised of
/// the outcome.
#[verifier::external_body]
pub(crate) fn worker_is_finished(handle: &tokio::task::JoinHandle<Result<(), String>>) -> bool {
    handle.is_finished()
}

} // verus!
