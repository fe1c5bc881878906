use terminal_sessions::project::{bytes_end_with, validate_add_project, AddProjectRequest, ProjectError};

fn build_request(path: &str, project_type: &str) -> AddProjectRequest {
    AddProjectRequest {
        name: "demo".to_string(),
        path: path.to_string(),
        project_type: project_type.to_string(),
        default_branch: None,
    }
}

#[test]
fn missing_path_is_rejected() {
    let request = build_request("/tmp/nowhere", "repository");
    assert_eq!(
        validate_add_project(&request, false, false),
        Err(ProjectError::PathMissing)
    );
}

#[test]
fn repository_needs_a_git_directory() {
    let request = build_request("/tmp/repo", "repository");
    assert_eq!(
        validate_add_project(&request, true, false),
        Err(ProjectError::NotARepository)
    );
    assert_eq!(validate_add_project(&request, true, true), Ok(()));
}

#[test]
fn workspace_needs_a_workspace_file() {
    let bad = build_request("/tmp/notes.txt", "workspace");
    assert_eq!(
        validate_add_project(&bad, true, false),
        Err(ProjectError::NotAWorkspaceFile)
    );
    let code_workspace = build_request("/tmp/app.code-workspace", "workspace");
    assert_eq!(validate_add_project(&code_workspace, true, false), Ok(()));
    let json = build_request("/tmp/app.json", "workspace");
    assert_eq!(validate_add_project(&json, true, false), Ok(()));
}

#[test]
fn other_project_types_only_need_existence() {
    let request = build_request("/tmp/anything", "folder");
    assert_eq!(validate_add_project(&request, true, false), Ok(()));
    assert_eq!(
        validate_add_project(&request, false, false),
        Err(ProjectError::PathMissing)
    );
}

#[test]
fn byte_suffix_checks() {
    assert!(bytes_end_with(b"app.json", b".json"));
    assert!(bytes_end_with(b"app.json", b""));
    assert!(bytes_end_with(b"", b""));
    assert!(!bytes_end_with(b"app.json", b".code-workspace"));
    assert!(!bytes_end_with(b"son", b".json"));
    assert!(!bytes_end_with(b"app.jsonx", b".json"));
}

#[test]
fn project_error_messages_differ() {
    assert_ne!(
        ProjectError::PathMissing.message(),
        ProjectError::NotARepository.message()
    );
    assert_ne!(
        ProjectError::NotARepository.message(),
        ProjectError::NotAWorkspaceFile.message()
    );
}
