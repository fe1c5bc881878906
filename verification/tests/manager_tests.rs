use terminal_sessions::errors::TerminalError;
use terminal_sessions::manager::TerminalManager;
use terminal_sessions::messages::WorkerMsg;
use terminal_sessions::task::CreateTerminalRequest;

fn build_request(name: &str, worktree: &str, dir: &str) -> CreateTerminalRequest {
    CreateTerminalRequest {
        worktree_id: worktree.to_string(),
        name: name.to_string(),
        working_directory: dir.to_string(),
    }
}

#[test]
fn create_session_is_listed() {
    let mut mgr = TerminalManager::new();
    let (terminal, config, _rx) = mgr
        .create_terminal(build_request("build", "wt-1", "/tmp/repo"), false)
        .expect("creation should succeed");
    let id = terminal.id.clone();
    assert_eq!(terminal.name, "build");
    assert_eq!(terminal.worktree_id, "wt-1");
    assert_eq!(terminal.working_directory, "/tmp/repo");
    assert_eq!(terminal.terminal_type, "shell");
    assert!(terminal.is_active);
    assert_eq!(config.program, "bash");
    assert_eq!(config.working_directory, "/tmp/repo");
    assert_eq!((config.rows, config.cols), (24, 80));
    assert!(mgr.has_terminal(&id));
    assert_eq!(mgr.terminal_count(), 1);
    let listed = mgr.list_terminals();
    assert!(listed.contains(&id));

    let task = mgr.get_terminal(&id).expect("session must be registered");
    assert_eq!(task.id(), &id);
    assert_eq!(task.name(), "build");
    assert_eq!(task.worktree_id(), "wt-1");
    assert_eq!(task.working_directory(), "/tmp/repo");
}

#[test]
fn create_many_sessions_unique_ids() {
    let mut mgr = TerminalManager::new();
    let mut ids: Vec<String> = Vec::new();
    let mut receivers = Vec::new();
    for i in 0..10 {
        let (terminal, _config, rx) = mgr
            .create_terminal(build_request(&format!("s{}", i), "wt-1", "/tmp"), false)
            .expect("creation should succeed");
        ids.push(terminal.id);
        receivers.push(rx);
    }
    assert_eq!(mgr.terminal_count(), 10);
    for a in 0..ids.len() {
        for b in (a + 1)..ids.len() {
            assert_ne!(ids[a], ids[b]);
        }
    }
    for id in &ids {
        assert!(mgr.list_terminals().contains(id));
    }
}

#[test]
fn close_removes_session() {
    let mut mgr = TerminalManager::new();
    let (terminal, _config, _rx) = mgr
        .create_terminal(build_request("build", "wt-1", "/tmp/repo"), false)
        .expect("creation should succeed");
    let id = terminal.id;
    assert_eq!(mgr.close_terminal(&id), Ok(()));
    assert!(!mgr.has_terminal(&id));
    assert!(!mgr.list_terminals().contains(&id));
    assert_eq!(mgr.terminal_count(), 0);
    assert_eq!(mgr.send_input(&id, "x"), Err(TerminalError::NotFound));
}

#[test]
fn close_twice_reports_not_found() {
    let mut mgr = TerminalManager::new();
    let (terminal, _config, _rx) = mgr
        .create_terminal(build_request("build", "wt-1", "/tmp/repo"), false)
        .expect("creation should succeed");
    let id = terminal.id;
    assert_eq!(mgr.close_terminal(&id), Ok(()));
    assert_eq!(mgr.close_terminal(&id), Err(TerminalError::NotFound));
}

#[test]
fn close_unknown_reports_not_found() {
    let mut mgr = TerminalManager::new();
    assert_eq!(
        mgr.close_terminal("no-such-session"),
        Err(TerminalError::NotFound)
    );
    assert_eq!(
        mgr.send_input("no-such-session", "x"),
        Err(TerminalError::NotFound)
    );
    assert_eq!(
        mgr.resize_terminal("no-such-session", 120, 40),
        Err(TerminalError::NotFound)
    );
}

#[test]
fn inputs_arrive_in_call_order() {
    let mut mgr = TerminalManager::new();
    let (terminal, _config, mut rx) = mgr
        .create_terminal(build_request("echo", "wt-1", "/tmp"), false)
        .expect("creation should succeed");
    let id = terminal.id;
    let mut expected = String::new();
    for i in 0..100 {
        let chunk = format!("chunk-{};", i);
        expected.push_str(&chunk);
        assert_eq!(mgr.send_input(&id, &chunk), Ok(()));
    }
    let mut received = String::new();
    while let Ok(msg) = rx.try_recv() {
        match msg {
            WorkerMsg::Input(text) => received.push_str(&text),
            WorkerMsg::Resize(_, _) => panic!("no resize was sent"),
        }
    }
    assert_eq!(received, expected);
}

#[test]
fn resize_is_forwarded_with_exact_geometry() {
    let mut mgr = TerminalManager::new();
    let (terminal, _config, mut rx) = mgr
        .create_terminal(build_request("geom", "wt-1", "/tmp"), false)
        .expect("creation should succeed");
    let id = terminal.id;
    assert_eq!(mgr.resize_terminal(&id, 120, 40), Ok(()));
    assert_eq!(rx.try_recv(), Ok(WorkerMsg::Resize(120, 40)));
}

#[test]
fn send_after_worker_gone_reports_not_found() {
    let mut mgr = TerminalManager::new();
    let (terminal, _config, rx) = mgr
        .create_terminal(build_request("gone", "wt-1", "/tmp"), false)
        .expect("creation should succeed");
    let id = terminal.id;
    drop(rx);
    assert_eq!(mgr.send_input(&id, "x"), Err(TerminalError::NotFound));
    assert_eq!(mgr.resize_terminal(&id, 1, 1), Err(TerminalError::NotFound));
}

#[test]
fn empty_directory_is_rejected_at_creation() {
    let mut mgr = TerminalManager::new();
    let result = mgr.create_terminal(build_request("build", "wt-1", ""), false);
    assert!(matches!(result, Err(TerminalError::InvalidConfiguration)));
    assert_eq!(mgr.terminal_count(), 0);
    assert!(mgr.list_terminals().is_empty());
}

#[test]
fn closed_id_is_never_reissued() {
    let mut mgr = TerminalManager::new();
    let (terminal, _config, _rx) = mgr
        .create_terminal(build_request("build", "wt-1", "/tmp/repo"), false)
        .expect("creation should succeed");
    let id = terminal.id;
    assert_eq!(mgr.close_terminal(&id), Ok(()));
    // the id is retired: even an explicit registration under it is refused
    let again = mgr.register_session(id.clone(), build_request("other", "wt-2", "/tmp"));
    assert!(again.is_none());
    assert!(!mgr.has_terminal(&id));
}

#[test]
fn register_session_refuses_taken_id() {
    let mut mgr = TerminalManager::new();
    let rx = mgr.register_session("sess-1".to_string(), build_request("a", "wt-1", "/tmp"));
    assert!(rx.is_some());
    let again = mgr.register_session("sess-1".to_string(), build_request("b", "wt-1", "/tmp"));
    assert!(again.is_none());
    assert_eq!(mgr.terminal_count(), 1);
}

#[test]
fn cleanup_reaps_finished_workers() {
    let rt = tokio::runtime::Builder::new_current_thread()
        .enable_time()
        .build()
        .expect("runtime");
    let mut mgr = TerminalManager::new();

    let (t1, _c1, _rx1) = mgr
        .create_terminal(build_request("done", "wt-1", "/tmp"), false)
        .expect("creation should succeed");
    let finished_id = t1.id;
    let (t2, _c2, _rx2) = mgr
        .create_terminal(build_request("busy", "wt-1", "/tmp"), false)
        .expect("creation should succeed");
    let pending_id = t2.id;
    let (t3, _c3, _rx3) = mgr
        .create_terminal(build_request("starting", "wt-1", "/tmp"), false)
        .expect("creation should succeed");
    let unattached_id = t3.id;

    let done_handle = rt.spawn(async { Ok(()) });
    let pending_handle = rt.spawn(async {
        std::future::pending::<()>().await;
        Ok(())
    });
    // let the finished task actually run to completion
    rt.block_on(async {
        tokio::time::sleep(std::time::Duration::from_millis(50)).await;
    });
    assert_eq!(mgr.attach_worker(&finished_id, done_handle), Ok(()));
    assert_eq!(mgr.attach_worker(&pending_id, pending_handle), Ok(()));
    assert_eq!(
        mgr.attach_worker("no-such-session", rt.spawn(async { Ok(()) })),
        Err(TerminalError::NotFound)
    );

    mgr.cleanup_completed_tasks();
    assert!(!mgr.has_terminal(&finished_id));
    assert!(mgr.has_terminal(&pending_id));
    assert!(mgr.has_terminal(&unattached_id));
    assert_eq!(mgr.terminal_count(), 2);

    assert_eq!(mgr.close_terminal(&pending_id), Ok(()));
    assert!(!mgr.has_terminal(&pending_id));
}

#[test]
fn session_description_is_an_active_shell() {
    let terminal = terminal_sessions::task::Terminal::of_session(
        "id-1".to_string(),
        "wt-1".to_string(),
        "build".to_string(),
        "/tmp/repo".to_string(),
    );
    assert_eq!(terminal.id, "id-1");
    assert_eq!(terminal.worktree_id, "wt-1");
    assert_eq!(terminal.name, "build");
    assert_eq!(terminal.working_directory, "/tmp/repo");
    assert_eq!(terminal.terminal_type, "shell");
    assert!(terminal.is_active);
}

#[test]
fn default_registry_is_empty() {
    let mgr = TerminalManager::default();
    assert_eq!(mgr.terminal_count(), 0);
    assert!(mgr.list_terminals().is_empty());
}
