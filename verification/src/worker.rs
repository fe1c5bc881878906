//! The session worker's state machine: the entire lifetime of one shell
//! session as a function from state and event to next state and actions.
//!
//! The worker itself runs as an independent concurrent unit of execution
//! that awaits the PTY's output, its input queue and a cancellation signal
//! at the same time. Whatever it observes is an event here; whatever it must
//! do next is an action. The host loop performs the actions in order.

use vstd::prelude::*;

verus! {

/// Where a session stands in its life.
#[derive(Clone, Copy, Debug, PartialEq, Eq, Structural)]
pub enum SessionState {
    /// The worker was spawned; the PTY and child are not yet confirmed live.
    Starting,
    /// Normal operation: output is pumped out, input and resizes are applied.
    Running,
    /// A close or cancellation was received; the child is being terminated.
    Closing,
    /// Final: the PTY is released and an exit event has been emitted.
    Terminated,
}

/// What a session worker can observe.
#[derive(Clone, Debug, PartialEq, Eq)]
pub enum WorkerEvent {
    /// The PTY and child process are confirmed live.
    PtyReady,
    /// The PTY could not be opened or the shell could not be spawned.
    SpawnFailed,
    /// Bytes read from the PTY controller side.
    Output(Vec<u8>),
    /// The PTY reached end of file: the child side is gone.
    ReadEof,
    /// A read error on the PTY: the stream is gone.
    ReadFailed,
    /// Input text arrived on the session's input queue.
    Input(String),
    /// A geometry change (columns, rows) arrived on the input queue.
    Resize(u16, u16),
    /// The registry dropped the sending end of the input queue: this is how
    /// closing a session reaches the worker, observed at a suspension point.
    InputQueueClosed,
    /// An input write failed; `true` means the PTY is confirmed gone.
    WriteFailed(bool),
    /// Applying a geometry change to the PTY failed.
    ResizeFailed,
    /// The worker's unit of execution was asked to cancel.
    Cancelled,
    /// The child process exited with this status, if one is known.
    ChildExited(Option<u32>),
}

/// What a session worker asks its host loop to do.
#[derive(Clone, Debug, PartialEq, Eq)]
pub enum WorkerAction {
    /// Push an output event with these bytes to the event sink.
    EmitOutput(Vec<u8>),
    /// Write this text to the PTY controller side.
    WritePty(String),
    /// Apply this geometry (columns, rows) to the PTY.
    ApplyResize(u16, u16),
    /// Terminate the child process, best effort.
    KillChild,
    /// Release the PTY handle.
    ReleasePty,
    /// Push an exit event with this status to the event sink.
    EmitExit(Option<u32>),
    /// Report a transient input-write failure without ending the session.
    WarnWriteFailed,
    /// Report a failed geometry change without ending the session.
    WarnResizeFailed,
}

/// True of the actions that end a session: the PTY is released and the one
/// exit event is emitted.
pub open spec fn is_exit(a: WorkerAction) -> bool {
    a is EmitExit
}

/// The worker's transition function. `Starting` and `Running` pass output,
/// input and resizes through unchanged; any terminal condition moves to
/// `Terminated`, releasing the PTY and emitting exactly one exit event; a
/// close request moves through `Closing`, where the child is killed and only
/// its end is still awaited. `Terminated` is final: nothing more happens.
pub open spec fn spec_step(s: SessionState, e: WorkerEvent) -> (SessionState, Seq<WorkerAction>) {
    match s {
        SessionState::Terminated => (SessionState::Terminated, Seq::empty()),
        SessionState::Closing => match e {
            WorkerEvent::ChildExited(status) => (
                SessionState::Terminated,
                seq![WorkerAction::ReleasePty, WorkerAction::EmitExit(status)],
            ),
            WorkerEvent::ReadEof | WorkerEvent::ReadFailed => (
                SessionState::Terminated,
                seq![WorkerAction::ReleasePty, WorkerAction::EmitExit(None)],
            ),
            WorkerEvent::Output(data) => (
                SessionState::Closing,
                seq![WorkerAction::EmitOutput(data)],
            ),
            _ => (SessionState::Closing, Seq::empty()),
        },
        _ => match e {
            // `Starting` and `Running` agree on everything but readiness.
            WorkerEvent::PtyReady => (SessionState::Running, Seq::empty()),
            WorkerEvent::SpawnFailed => (
                SessionState::Terminated,
                seq![WorkerAction::ReleasePty, WorkerAction::EmitExit(None)],
            ),
            WorkerEvent::Output(data) => (s, seq![WorkerAction::EmitOutput(data)]),
            WorkerEvent::ReadEof | WorkerEvent::ReadFailed => (
                SessionState::Terminated,
                seq![WorkerAction::ReleasePty, WorkerAction::EmitExit(None)],
            ),
            WorkerEvent::Input(data) => (s, seq![WorkerAction::WritePty(data)]),
            WorkerEvent::Resize(cols, rows) => (s, seq![WorkerAction::ApplyResize(cols, rows)]),
            WorkerEvent::InputQueueClosed | WorkerEvent::Cancelled => (
                SessionState::Closing,
                seq![WorkerAction::KillChild],
            ),
            WorkerEvent::WriteFailed(gone) => if gone {
                (
                    SessionState::Terminated,
                    seq![WorkerAction::ReleasePty, WorkerAction::EmitExit(None)],
                )
            } else {
                (s, seq![WorkerAction::WarnWriteFailed])
            },
            WorkerEvent::ResizeFailed => (s, seq![WorkerAction::WarnResizeFailed]),
            WorkerEvent::ChildExited(status) => (
                SessionState::Terminated,
                seq![WorkerAction::ReleasePty, WorkerAction::EmitExit(status)],
            ),
        },
    }
}

/// One transition of the session worker, exactly `spec_step`.
pub fn worker_step(s: SessionState, e: WorkerEvent) -> (r: (SessionState, Vec<WorkerAction>))
    ensures
        r.0 == spec_step(s, e).0,
        r.1@ == spec_step(s, e).1,
{
    match s {
        SessionState::Terminated => (SessionState::Terminated, Vec::new()),
        SessionState::Closing => match e {
            WorkerEvent::ChildExited(status) => (
                SessionState::Terminated,
                two(WorkerAction::ReleasePty, WorkerAction::EmitExit(status)),
            ),
            WorkerEvent::ReadEof | WorkerEvent::ReadFailed => (
                SessionState::Terminated,
                two(WorkerAction::ReleasePty, WorkerAction::EmitExit(None)),
            ),
            WorkerEvent::Output(data) => (
                SessionState::Closing,
                one(WorkerAction::EmitOutput(data)),
            ),
            _ => (SessionState::Closing, Vec::new()),
        },
        _ => match e {
            WorkerEvent::PtyReady => (SessionState::Running, Vec::new()),
            WorkerEvent::SpawnFailed => (
                SessionState::Terminated,
                two(WorkerAction::ReleasePty, WorkerAction::EmitExit(None)),
            ),
            WorkerEvent::Output(data) => (s, one(WorkerAction::EmitOutput(data))),
            WorkerEvent::ReadEof | WorkerEvent::ReadFailed => (
                SessionState::Terminated,
                two(WorkerAction::ReleasePty, WorkerAction::EmitExit(None)),
            ),
            WorkerEvent::Input(data) => (s, one(WorkerAction::WritePty(data))),
            WorkerEvent::Resize(cols, rows) => (s, one(WorkerAction::ApplyResize(cols, rows))),
            WorkerEvent::InputQueueClosed | WorkerEvent::Cancelled => (
                SessionState::Closing,
                one(WorkerAction::KillChild),
            ),
            WorkerEvent::WriteFailed(gone) => if gone {
                (
                    SessionState::Terminated,
                    two(WorkerAction::ReleasePty, WorkerAction::EmitExit(None)),
                )
            } else {
                (s, one(WorkerAction::WarnWriteFailed))
            },
            WorkerEvent::ResizeFailed => (s, one(WorkerAction::WarnResizeFailed)),
            WorkerEvent::ChildExited(status) => (
                SessionState::Terminated,
                two(WorkerAction::ReleasePty, WorkerAction::EmitExit(status)),
            ),
        },
    }
}

fn one(a: WorkerAction) -> (r: Vec<WorkerAction>)
    ensures
        r@ == seq![a],
{
    let mut v: Vec<WorkerAction> = Vec::new();
    v.push(a);
    proof {
        assert(v@ =~= seq![a]);
    }
    v
}

fn two(a: WorkerAction, b: WorkerAction) -> (r: Vec<WorkerAction>)
    ensures
        r@ == seq![a, b],
{
    let mut v: Vec<WorkerAction> = Vec::new();
    v.push(a);
    v.push(b);
    proof {
        assert(v@ =~= seq![a, b]);
    }
    v
}

/// How many exit events a run of actions carries.
pub open spec fn exit_count(a: Seq<WorkerAction>) -> int
    decreases a.len(),
{
    if a.len() == 0 {
        0
    } else {
        exit_count(a.drop_last()) + if is_exit(a.last()) {
            1int
        } else {
            0int
        }
    }
}

/// The worker driven over a whole sequence of events: the final state and
/// the concatenation of all actions, in order.
pub open spec fn run_trace(s: SessionState, events: Seq<WorkerEvent>) -> (
    SessionState,
    Seq<WorkerAction>,
)
    decreases events.len(),
{
    if events.len() == 0 {
        (s, Seq::empty())
    } else {
        let first = spec_step(s, events.first());
        let rest = run_trace(first.0, events.drop_first());
        (rest.0, first.1 + rest.1)
    }
}

/// Law: `Terminated` is final. After it, no event changes the state and no
/// action is ever produced again.
pub proof fn lemma_terminated_is_final(e: WorkerEvent)
    ensures
        spec_step(SessionState::Terminated, e).0 == SessionState::Terminated,
        spec_step(SessionState::Terminated, e).1 =~= Seq::<WorkerAction>::empty(),
{
}

/// Law: an exit event is emitted exactly when the session ends — a step
/// carries an exit action if and only if it moves a live session to
/// `Terminated`, and then it carries exactly one.
pub proof fn lemma_exit_marks_termination(s: SessionState, e: WorkerEvent)
    ensures
        exit_count(spec_step(s, e).1) == if s != SessionState::Terminated && spec_step(s, e).0
            == SessionState::Terminated {
            1int
        } else {
            0int
        },
{
    reveal_with_fuel(exit_count, 4);
}

/// Law: resource release accompanies every ending — a step that moves a live
/// session to `Terminated` releases the PTY handle, whichever event ended it.
pub proof fn lemma_release_on_termination(s: SessionState, e: WorkerEvent)
    ensures
        s != SessionState::Terminated && spec_step(s, e).0 == SessionState::Terminated
            ==> spec_step(s, e).1.contains(WorkerAction::ReleasePty),
{
    if s != SessionState::Terminated && spec_step(s, e).0 == SessionState::Terminated {
        assert(spec_step(s, e).1[0] == WorkerAction::ReleasePty);
    }
}

/// Law: input passes through unchanged — while a session is live, each input
/// event becomes exactly one write of the same text, so the shell receives
/// the enqueued payloads in call order.
pub proof fn lemma_input_passthrough(s: SessionState, data: String)
    requires
        s == SessionState::Starting || s == SessionState::Running,
    ensures
        spec_step(s, WorkerEvent::Input(data)) == (s, seq![WorkerAction::WritePty(data)]),
{
}

/// Law: output passes through unchanged and in order — each chunk read from
/// the PTY becomes exactly one output event with the same bytes, also while
/// the session is closing.
pub proof fn lemma_output_passthrough(s: SessionState, data: Vec<u8>)
    requires
        s != SessionState::Terminated,
    ensures
        spec_step(s, WorkerEvent::Output(data)).0 == s,
        spec_step(s, WorkerEvent::Output(data)).1 == seq![WorkerAction::EmitOutput(data)],
{
}

/// Law: a resize request is applied with the very geometry that was asked.
pub proof fn lemma_resize_passthrough(s: SessionState, cols: u16, rows: u16)
    requires
        s == SessionState::Starting || s == SessionState::Running,
    ensures
        spec_step(s, WorkerEvent::Resize(cols, rows)) == (
            s,
            seq![WorkerAction::ApplyResize(cols, rows)],
        ),
{
}

/// Law: a transient write failure never ends the session; only a write
/// failure with the PTY confirmed gone does.
pub proof fn lemma_transient_write_failure(s: SessionState)
    requires
        s == SessionState::Starting || s == SessionState::Running,
    ensures
        spec_step(s, WorkerEvent::WriteFailed(false)) == (
            s,
            seq![WorkerAction::WarnWriteFailed],
        ),
        spec_step(s, WorkerEvent::WriteFailed(true)).0 == SessionState::Terminated,
{
}

/// Law: a failed geometry change never ends the session; it is only
/// reported, and the session keeps running.
pub proof fn lemma_resize_failure_is_transient(s: SessionState)
    requires
        s == SessionState::Starting || s == SessionState::Running,
    ensures
        spec_step(s, WorkerEvent::ResizeFailed) == (s, seq![WorkerAction::WarnResizeFailed]),
{
}

proof fn lemma_exit_count_add(a: Seq<WorkerAction>, b: Seq<WorkerAction>)
    ensures
        exit_count(a + b) == exit_count(a) + exit_count(b),
    decreases b.len(),
{
    if b.len() == 0 {
        assert(a + b =~= a);
        reveal_with_fuel(exit_count, 1);
    } else {
        lemma_exit_count_add(a, b.drop_last());
        assert((a + b).drop_last() =~= a + b.drop_last());
        assert((a + b).last() == b.last());
    }
}

proof fn lemma_exit_count_nonneg(a: Seq<WorkerAction>)
    ensures
        exit_count(a) >= 0,
    decreases a.len(),
{
    if a.len() > 0 {
        lemma_exit_count_nonneg(a.drop_last());
    }
}

proof fn lemma_trace_from_terminated(events: Seq<WorkerEvent>)
    ensures
        run_trace(SessionState::Terminated, events).0 == SessionState::Terminated,
        run_trace(SessionState::Terminated, events).1 =~= Seq::<WorkerAction>::empty(),
    decreases events.len(),
{
    if events.len() > 0 {
        lemma_trace_from_terminated(events.drop_first());
    }
}

/// The write a single input event asks for.
pub open spec fn write_of(e: WorkerEvent) -> WorkerAction {
    match e {
        WorkerEvent::Input(data) => WorkerAction::WritePty(data),
        _ => WorkerAction::KillChild,
    }
}

/// Law: the shell receives enqueued input in call order — while a session is
/// live, a run of input events produces exactly the matching PTY writes,
/// one per input, with the same payloads in the same order.
pub proof fn lemma_inputs_written_in_order(s: SessionState, events: Seq<WorkerEvent>)
    requires
        s == SessionState::Starting || s == SessionState::Running,
        forall|i: int| 0 <= i < events.len() ==> events[i] is Input,
    ensures
        run_trace(s, events).0 == s,
        run_trace(s, events).1 =~= events.map_values(|e: WorkerEvent| write_of(e)),
    decreases events.len(),
{
    if events.len() > 0 {
        lemma_inputs_written_in_order(s, events.drop_first());
        let mapped = events.map_values(|e: WorkerEvent| write_of(e));
        assert(events.drop_first().map_values(|e: WorkerEvent| write_of(e)) =~= mapped.drop_first());
        assert(run_trace(s, events).1 =~= seq![write_of(events.first())] + mapped.drop_first());
        assert(mapped =~= seq![mapped.first()] + mapped.drop_first());
    }
}

/// The output event a single chunk of PTY output asks for.
pub open spec fn emit_of(e: WorkerEvent) -> WorkerAction {
    match e {
        WorkerEvent::Output(data) => WorkerAction::EmitOutput(data),
        _ => WorkerAction::KillChild,
    }
}

/// Law: output reaches the event sink in production order — while a session
/// is live, a run of output events produces exactly the matching output
/// events, one per chunk, with the same bytes in the same order.
pub proof fn lemma_outputs_emitted_in_order(s: SessionState, events: Seq<WorkerEvent>)
    requires
        s != SessionState::Terminated,
        forall|i: int| 0 <= i < events.len() ==> events[i] is Output,
    ensures
        run_trace(s, events).0 == s,
        run_trace(s, events).1 =~= events.map_values(|e: WorkerEvent| emit_of(e)),
    decreases events.len(),
{
    if events.len() > 0 {
        lemma_outputs_emitted_in_order(s, events.drop_first());
        let mapped = events.map_values(|e: WorkerEvent| emit_of(e));
        assert(events.drop_first().map_values(|e: WorkerEvent| emit_of(e)) =~= mapped.drop_first());
        assert(run_trace(s, events).1 =~= seq![emit_of(events.first())] + mapped.drop_first());
        assert(mapped =~= seq![mapped.first()] + mapped.drop_first());
    }
}

/// Law: over any whole run of a session, the exit event is emitted at most
/// once — and a session that is already over emits nothing at all.
pub proof fn lemma_exit_at_most_once(s: SessionState, events: Seq<WorkerEvent>)
    ensures
        exit_count(run_trace(s, events).1) <= if s == SessionState::Terminated {
            0int
        } else {
            1int
        },
    decreases events.len(),
{
    if events.len() == 0 {
        reveal_with_fuel(exit_count, 1);
    } else {
        let first = spec_step(s, events.first());
        let rest = run_trace(first.0, events.drop_first());
        lemma_exit_count_add(first.1, rest.1);
        lemma_exit_marks_termination(s, events.first());
        lemma_exit_at_most_once(first.0, events.drop_first());
        lemma_exit_count_nonneg(first.1);
        lemma_exit_count_nonneg(rest.1);
        if s == SessionState::Terminated {
            lemma_trace_from_terminated(events);
        }
    }
}

/// Law: a run that ends in `Terminated` from a live start emits the exit
/// event exactly once — every ended session is observable as ended.
pub proof fn lemma_exit_exactly_once_when_ended(s: SessionState, events: Seq<WorkerEvent>)
    requires
        s != SessionState::Terminated,
        run_trace(s, events).0 == SessionState::Terminated,
    ensures
        exit_count(run_trace(s, events).1) == 1,
    decreases events.len(),
{
    if events.len() == 0 {
        // an empty run stays in the live start state, against the premise
        assert(false);
    } else {
        let first = spec_step(s, events.first());
        let rest = run_trace(first.0, events.drop_first());
        lemma_exit_count_add(first.1, rest.1);
        lemma_exit_marks_termination(s, events.first());
        if first.0 == SessionState::Terminated {
            lemma_trace_from_terminated(events.drop_first());
            reveal_with_fuel(exit_count, 1);
        } else {
            lemma_exit_exactly_once_when_ended(first.0, events.drop_first());
        }
    }
}

} // verus!
