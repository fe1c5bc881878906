use terminal_sessions::worker::{worker_step, SessionState, WorkerAction, WorkerEvent};

#[test]
fn starting_becomes_running_on_ready() {
    let (next, actions) = worker_step(SessionState::Starting, WorkerEvent::PtyReady);
    assert_eq!(next, SessionState::Running);
    assert!(actions.is_empty());
}

#[test]
fn spawn_failure_ends_with_exit_event() {
    let (next, actions) = worker_step(SessionState::Starting, WorkerEvent::SpawnFailed);
    assert_eq!(next, SessionState::Terminated);
    assert_eq!(
        actions,
        vec![WorkerAction::ReleasePty, WorkerAction::EmitExit(None)]
    );
}

#[test]
fn output_passes_through_unchanged() {
    let bytes = b"hi\n".to_vec();
    let (next, actions) = worker_step(SessionState::Running, WorkerEvent::Output(bytes.clone()));
    assert_eq!(next, SessionState::Running);
    assert_eq!(actions, vec![WorkerAction::EmitOutput(bytes)]);
}

#[test]
fn input_becomes_a_pty_write() {
    let (next, actions) = worker_step(
        SessionState::Running,
        WorkerEvent::Input("echo hi\n".to_string()),
    );
    assert_eq!(next, SessionState::Running);
    assert_eq!(actions, vec![WorkerAction::WritePty("echo hi\n".to_string())]);
}

#[test]
fn resize_applies_exact_geometry() {
    let (next, actions) = worker_step(SessionState::Running, WorkerEvent::Resize(120, 40));
    assert_eq!(next, SessionState::Running);
    assert_eq!(actions, vec![WorkerAction::ApplyResize(120, 40)]);
}

#[test]
fn natural_exit_emits_exit_with_status() {
    let (next, actions) = worker_step(
        SessionState::Running,
        WorkerEvent::ChildExited(Some(0)),
    );
    assert_eq!(next, SessionState::Terminated);
    assert_eq!(
        actions,
        vec![WorkerAction::ReleasePty, WorkerAction::EmitExit(Some(0))]
    );
}

#[test]
fn read_eof_ends_the_session() {
    let (next, actions) = worker_step(SessionState::Running, WorkerEvent::ReadEof);
    assert_eq!(next, SessionState::Terminated);
    assert_eq!(
        actions,
        vec![WorkerAction::ReleasePty, WorkerAction::EmitExit(None)]
    );
}

#[test]
fn cancellation_goes_through_closing() {
    let (closing, actions) = worker_step(SessionState::Running, WorkerEvent::Cancelled);
    assert_eq!(closing, SessionState::Closing);
    assert_eq!(actions, vec![WorkerAction::KillChild]);

    let (done, actions) = worker_step(closing, WorkerEvent::ChildExited(Some(9)));
    assert_eq!(done, SessionState::Terminated);
    assert_eq!(
        actions,
        vec![WorkerAction::ReleasePty, WorkerAction::EmitExit(Some(9))]
    );
}

#[test]
fn closing_ignores_input_and_resize() {
    let (next, actions) = worker_step(
        SessionState::Closing,
        WorkerEvent::Input("late".to_string()),
    );
    assert_eq!(next, SessionState::Closing);
    assert!(actions.is_empty());

    let (next, actions) = worker_step(SessionState::Closing, WorkerEvent::Resize(1, 1));
    assert_eq!(next, SessionState::Closing);
    assert!(actions.is_empty());
}

#[test]
fn closing_still_emits_in_flight_output() {
    let bytes = b"tail".to_vec();
    let (next, actions) = worker_step(SessionState::Closing, WorkerEvent::Output(bytes.clone()));
    assert_eq!(next, SessionState::Closing);
    assert_eq!(actions, vec![WorkerAction::EmitOutput(bytes)]);
}

#[test]
fn transient_write_failure_keeps_running() {
    let (next, actions) = worker_step(SessionState::Running, WorkerEvent::WriteFailed(false));
    assert_eq!(next, SessionState::Running);
    assert_eq!(actions, vec![WorkerAction::WarnWriteFailed]);
}

#[test]
fn failed_resize_is_reported_not_fatal() {
    let (next, actions) = worker_step(SessionState::Running, WorkerEvent::ResizeFailed);
    assert_eq!(next, SessionState::Running);
    assert_eq!(actions, vec![WorkerAction::WarnResizeFailed]);
}

#[test]
fn fatal_write_failure_ends_the_session() {
    let (next, actions) = worker_step(SessionState::Running, WorkerEvent::WriteFailed(true));
    assert_eq!(next, SessionState::Terminated);
    assert_eq!(
        actions,
        vec![WorkerAction::ReleasePty, WorkerAction::EmitExit(None)]
    );
}

#[test]
fn terminated_is_final() {
    let events = vec![
        WorkerEvent::PtyReady,
        WorkerEvent::Output(b"x".to_vec()),
        WorkerEvent::Input("y".to_string()),
        WorkerEvent::Resize(2, 2),
        WorkerEvent::Cancelled,
        WorkerEvent::ChildExited(Some(1)),
        WorkerEvent::ReadEof,
    ];
    for event in events {
        let (next, actions) = worker_step(SessionState::Terminated, event);
        assert_eq!(next, SessionState::Terminated);
        assert!(actions.is_empty());
    }
}

#[test]
fn whole_life_emits_exactly_one_exit() {
    let events = vec![
        WorkerEvent::PtyReady,
        WorkerEvent::Output(b"$ ".to_vec()),
        WorkerEvent::Input("exit\n".to_string()),
        WorkerEvent::Output(b"exit\n".to_vec()),
        WorkerEvent::ChildExited(Some(0)),
        WorkerEvent::ReadEof,
        WorkerEvent::Cancelled,
    ];
    let mut state = SessionState::Starting;
    let mut exits = 0;
    for event in events {
        let (next, actions) = worker_step(state, event);
        state = next;
        for action in actions {
            if matches!(action, WorkerAction::EmitExit(_)) {
                exits += 1;
            }
        }
    }
    assert_eq!(state, SessionState::Terminated);
    assert_eq!(exits, 1);
}
