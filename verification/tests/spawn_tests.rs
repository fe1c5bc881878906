use terminal_sessions::errors::TerminalError;
use terminal_sessions::spawn::{plan_session, shell_program, DEFAULT_COLS, DEFAULT_ROWS};
use terminal_sessions::task::CreateTerminalRequest;

#[test]
fn posix_hosts_get_a_posix_shell() {
    assert_eq!(shell_program(false), "bash");
}

#[test]
fn windows_hosts_get_cmd() {
    assert_eq!(shell_program(true), "cmd.exe");
}

#[test]
fn plan_uses_default_geometry_and_directory() {
    let request = CreateTerminalRequest {
        worktree_id: "wt-1".to_string(),
        name: "build".to_string(),
        working_directory: "/tmp/repo".to_string(),
    };
    let config = match plan_session(&request, false) {
        Ok(config) => config,
        Err(_) => panic!("a nonempty directory must be accepted"),
    };
    assert_eq!(config.program, "bash");
    assert_eq!(config.working_directory, "/tmp/repo");
    assert_eq!(config.rows, 24);
    assert_eq!(config.cols, 80);
    assert_eq!(config.rows, DEFAULT_ROWS);
    assert_eq!(config.cols, DEFAULT_COLS);
}

#[test]
fn empty_directory_is_invalid_configuration() {
    let request = CreateTerminalRequest {
        worktree_id: "wt-1".to_string(),
        name: "build".to_string(),
        working_directory: String::new(),
    };
    assert!(matches!(
        plan_session(&request, false),
        Err(TerminalError::InvalidConfiguration)
    ));
}

#[test]
fn known_editors_map_to_their_commands() {
    assert_eq!(terminal_sessions::spawn::editor_command("vscode"), Ok("code"));
    assert_eq!(terminal_sessions::spawn::editor_command("cursor"), Ok("cursor"));
    assert_eq!(
        terminal_sessions::spawn::editor_command("emacs"),
        Err(terminal_sessions::spawn::EditorError::Unsupported)
    );
    assert_eq!(
        terminal_sessions::spawn::editor_command(""),
        Err(terminal_sessions::spawn::EditorError::Unsupported)
    );
    assert_eq!(
        terminal_sessions::spawn::EditorError::Unsupported.message(),
        "Unsupported editor"
    );
}

#[test]
fn error_messages_name_the_failure() {
    assert_eq!(TerminalError::NotFound.message(), "Terminal not found");
    assert_ne!(
        TerminalError::InvalidConfiguration.message(),
        TerminalError::SpawnFailure.message()
    );
}
