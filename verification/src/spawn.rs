//! Shell spawn policy: which shell a session runs, where, and at what
//! initial geometry. The decision is made here; opening the PTY and spawning
//! the process are the host's job.

use vstd::prelude::*;

use crate::errors::TerminalError;
use crate::task::CreateTerminalRequest;

verus! {

/// Initial PTY geometry: rows.
pub const DEFAULT_ROWS: u16 = 24;

/// Initial PTY geometry: columns.
pub const DEFAULT_COLS: u16 = 80;

/// Everything the host needs to open the PTY and spawn the shell.
#[derive(Debug, Clone)]
pub struct SpawnConfig {
    /// The shell executable to run.
    pub program: String,
    /// The shell's initial directory.
    pub working_directory: String,
    /// Initial PTY rows.
    pub rows: u16,
    /// Initial PTY columns.
    pub cols: u16,
}

/// The platform-appropriate interactive shell: the `cmd` family on
/// Windows-like hosts, a POSIX shell elsewhere.
pub fn shell_program(windows: bool) -> (r: &'static str)
    ensures
        windows ==> r@ == "cmd.exe"@,
        !windows ==> r@ == "bash"@,
{
    if windows {
        "cmd.exe"
    } else {
        "bash"
    }
}

/// Why an editor launch was refused.
#[derive(Clone, Copy, Debug, PartialEq, Eq, Structural)]
pub enum EditorError {
    /// The named editor is not one the application knows.
    Unsupported,
}

impl EditorError {
    /// A human-readable description of the refusal.
    pub fn message(&self) -> (r: &'static str)
        ensures
            r@ == "Unsupported editor"@,
    {
        "Unsupported editor"
    }
}

/// Decides which executable opens a path in the user's editor. Only the
/// editors the application knows are accepted; anything else is refused and
/// nothing is launched.
pub fn editor_command(editor: &str) -> (r: Result<&'static str, EditorError>)
    ensures
        editor@ == "vscode"@ ==> (r matches Ok(c) && c@ == "code"@),
        editor@ == "cursor"@ ==> (r matches Ok(c) && c@ == "cursor"@),
        r is Err <==> !(editor@ == "vscode"@ || editor@ == "cursor"@),
        r is Err ==> r == Err::<&'static str, EditorError>(EditorError::Unsupported),
    {
    proof {
        reveal_strlit("vscode");
        reveal_strlit("cursor");
        assert("vscode"@[0] == 'v');
        assert("cursor"@[0] == 'c');
    }
    if crate::ids::str_eq(editor, "vscode") {
        Ok("code")
    } else if crate::ids::str_eq(editor, "cursor") {
        Ok("cursor")
    } else {
        Err(EditorError::Unsupported)
    }
}

/// Decides how the session's shell is spawned. Rejects an empty working
/// directory as an invalid configuration — the session must never enter the
/// registry then; any other directory is left to the host's PTY open and
/// process spawn to accept or refuse.
pub fn plan_session(request: &CreateTerminalRequest, windows: bool) -> (r: Result<
    SpawnConfig,
    TerminalError,
>)
    ensures
        r is Ok <==> request.working_directory@.len() > 0,
        r is Err ==> r == Err::<SpawnConfig, TerminalError>(TerminalError::InvalidConfiguration),
        r matches Ok(c) ==> c.working_directory@ == request.working_directory@ && c.rows
            == DEFAULT_ROWS && c.cols == DEFAULT_COLS && (windows ==> c.program@ == "cmd.exe"@)
            && (!windows ==> c.program@ == "bash"@),
{
    if request.working_directory.as_str().is_empty() {
        Err(TerminalError::InvalidConfiguration)
    } else {
        Ok(
            SpawnConfig {
                program: shell_program(windows).to_owned(),
                working_directory: request.working_directory.clone(),
                rows: DEFAULT_ROWS,
                cols: DEFAULT_COLS,
            },
        )
    }
}

} // verus!
