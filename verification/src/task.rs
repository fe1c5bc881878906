//! One registered session as the registry sees it: immutable metadata plus
//! the sending end of the worker's input queue.

use vstd::prelude::*;

use crate::channels::channel_send;
use crate::messages::WorkerMsg;

verus! {

/// What a caller supplies to create a session.
#[derive(Debug, Clone)]
pub struct CreateTerminalRequest {
    /// Identifier of the worktree this session is associated with.
    pub worktree_id: String,
    /// Caller-supplied display name.
    pub name: String,
    /// Absolute path the shell starts in.
    pub working_directory: String,
}

/// Session metadata in the shape the UI layer consumes.
#[derive(Debug, Clone)]
pub struct Terminal {
    pub id: String,
    pub worktree_id: String,
    pub name: String,
    pub terminal_type: String,
    pub working_directory: String,
    pub is_active: bool,
}

impl Terminal {
    /// The description of a freshly created shell session: active, of the
    /// `shell` kind, under the given identity and directory.
    pub fn of_session(
        id: String,
        worktree_id: String,
        name: String,
        working_directory: String,
    ) -> (r: Terminal)
        ensures
            r.id@ == id@,
            r.worktree_id@ == worktree_id@,
            r.name@ == name@,
            r.working_directory@ == working_directory@,
            r.terminal_type@ == "shell"@,
            r.is_active,
    {
        Terminal {
            id,
            worktree_id,
            name,
            terminal_type: "shell".to_owned(),
            working_directory,
            is_active: true,
        }
    }
}

/// The mathematical image of one session's metadata.
pub ghost struct TaskModel {
    pub id: Seq<char>,
    pub name: Seq<char>,
    pub worktree_id: Seq<char>,
    pub working_directory: Seq<char>,
}

/// The registry's record of one live session: its metadata and the sending
/// end of the worker's input queue. The PTY itself is owned by the worker
/// and never appears here.
#[derive(Debug)]
pub struct TerminalTask {
    id: String,
    name: String,
    worktree_id: String,
    working_directory: String,
    input_tx: tokio::sync::mpsc::UnboundedSender<WorkerMsg>,
}

impl View for TerminalTask {
    type V = TaskModel;

    closed spec fn view(&self) -> TaskModel {
        TaskModel {
            id: self.id@,
            name: self.name@,
            worktree_id: self.worktree_id@,
            working_directory: self.working_directory@,
        }
    }
}

impl TerminalTask {
    /// Builds the record for a freshly created session.
    pub fn new(
        id: String,
        name: String,
        worktree_id: String,
        working_directory: String,
        input_tx: tokio::sync::mpsc::UnboundedSender<WorkerMsg>,
    ) -> (r: TerminalTask)
        ensures
            r@ == (TaskModel {
                id: id@,
                name: name@,
                worktree_id: worktree_id@,
                working_directory: working_directory@,
            }),
    {
        TerminalTask { id, name, worktree_id, working_directory, input_tx }
    }

    /// The session's identifier.
    pub fn id(&self) -> (r: &String)
        ensures
            r@ == self@.id,
    {
        &self.id
    }

    /// The session's display name.
    pub fn name(&self) -> (r: &String)
        ensures
            r@ == self@.name,
    {
        &self.name
    }

    /// The worktree this session belongs to.
    pub fn worktree_id(&self) -> (r: &String)
        ensures
            r@ == self@.worktree_id,
    {
        &self.worktree_id
    }

    /// The directory the shell was started in.
    pub fn working_directory(&self) -> (r: &String)
        ensures
            r@ == self@.working_directory,
    {
        &self.working_directory
    }

    /// Enqueues input text for the worker. Returns false when the worker has
    /// ended and its queue is gone; the caller surfaces that as a missing
    /// session.
    pub fn send_input(&self, data: &str) -> bool {
        channel_send(&self.input_tx, WorkerMsg::Input(data.to_owned()))
    }

    /// Enqueues a geometry change for the worker, under the same delivery
    /// contract as input.
    pub fn send_resize(&self, cols: u16, rows: u16) -> bool {
        channel_send(&self.input_tx, WorkerMsg::Resize(cols, rows))
    }
}

} // verus!
