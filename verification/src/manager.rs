//! The session registry: the single authority for session identity, routing
//! and enumeration. It maps each session id to the session's metadata, the
//! sending end of the worker's input queue, and the worker's completion
//! handle. The registry never touches the PTY itself: a slow terminal can
//! never block registry operations.

use vstd::prelude::*;

use crate::channels::{new_worker_channel, worker_is_finished};
use crate::errors::TerminalError;
use crate::ids::{fresh_session_id, str_eq};
use crate::messages::WorkerMsg;
use crate::spawn::{plan_session, SpawnConfig, DEFAULT_COLS, DEFAULT_ROWS};
use crate::task::{CreateTerminalRequest, TaskModel, Terminal, TerminalTask};

verus! {

/// The mathematical image of one registry entry: the session's metadata and
/// whether a completion handle has been attached for its worker.
pub ghost struct SessionModel {
    pub task: TaskModel,
    pub attached: bool,
}

/// True when `s` holds an entry for the session id `id`.
pub open spec fn contains_id(s: Seq<SessionModel>, id: Seq<char>) -> bool {
    exists|i: int| 0 <= i < s.len() && s[i].task.id == id
}

/// True when `s` holds the entry `m` itself.
pub open spec fn contains_model(s: Seq<SessionModel>, m: SessionModel) -> bool {
    exists|i: int| 0 <= i < s.len() && s[i] == m
}

/// True when `m` stands among the first `bound` entries of `s`.
pub open spec fn in_prefix(s: Seq<SessionModel>, bound: int, m: SessionModel) -> bool {
    exists|i: int| 0 <= i < bound && i < s.len() && s[i] == m
}

/// No two entries share a session id.
pub open spec fn unique_ids(s: Seq<SessionModel>) -> bool {
    forall|i: int, j: int| 0 <= i < j < s.len() ==> s[i].task.id != s[j].task.id
}

/// True when the retired list `r` holds the id `id`.
pub open spec fn retired_contains(r: Seq<Seq<char>>, id: Seq<char>) -> bool {
    exists|i: int| 0 <= i < r.len() && r[i] == id
}

/// True when the id of one of the first `bound` entries of `s` is `id`.
pub open spec fn id_in_prefix(s: Seq<SessionModel>, bound: int, id: Seq<char>) -> bool {
    exists|d: int| 0 <= d < bound && d < s.len() && s[d].task.id == id
}

struct Entry {
    task: TerminalTask,
    handle: Option<tokio::task::JoinHandle<Result<(), String>>>,
}

spec fn entry_model(e: Entry) -> SessionModel {
    SessionModel { task: e.task@, attached: e.handle is Some }
}

spec fn models(entries: Seq<Entry>) -> Seq<SessionModel> {
    entries.map(|i: int, e: Entry| entry_model(e))
}

/// The registry of live sessions. Besides the live entries it remembers the
/// ids of sessions that were closed or reaped, so that an id, once removed,
/// is never handed out again for a different session.
pub struct TerminalManager {
    entries: Vec<Entry>,
    retired: Vec<String>,
}

impl View for TerminalManager {
    type V = Seq<SessionModel>;

    closed spec fn view(&self) -> Seq<SessionModel> {
        models(self.entries@)
    }
}

impl TerminalManager {
    /// The ids of sessions that were removed from the registry, in removal
    /// order. They are never reused.
    pub closed spec fn retired_ids(&self) -> Seq<Seq<char>> {
        self.retired@.map_values(|s: String| s@)
    }

    /// The registry's invariant: session ids are unique, and no live session
    /// carries a retired id.
    pub open spec fn wf(&self) -> bool {
        &&& unique_ids(self@)
        &&& forall|i: int|
            0 <= i < self@.len() ==> !#[trigger] retired_contains(
                self.retired_ids(),
                self@[i].task.id,
            )
    }

    /// An empty registry.
    pub fn new() -> (r: TerminalManager)
        ensures
            r@ =~= Seq::<SessionModel>::empty(),
            r.retired_ids() =~= Seq::<Seq<char>>::empty(),
            r.wf(),
    {
        TerminalManager { entries: Vec::new(), retired: Vec::new() }
    }

    /// Whether this id once belonged to a session that is now gone.
    fn is_retired(&self, terminal_id: &str) -> (r: bool)
        ensures
            r == retired_contains(self.retired_ids(), terminal_id@),
    {
        let mut i: usize = 0;
        while i < self.retired.len()
            invariant
                0 <= i <= self.retired@.len(),
                self.retired_ids().len() == self.retired@.len(),
                forall|k: int| 0 <= k < i ==> self.retired_ids()[k] != terminal_id@,
            decreases self.retired@.len() - i,
        {
            if str_eq(self.retired[i].as_str(), terminal_id) {
                proof {
                    assert(self.retired_ids()[i as int] == terminal_id@);
                }
                return true;
            }
            i = i + 1;
        }
        false
    }

    /// The index of the entry for `terminal_id`, if any.
    fn find_index(&self, terminal_id: &str) -> (r: Option<usize>)
        ensures
            match r {
                Some(i) => 0 <= i < self@.len() && self@[i as int].task.id == terminal_id@,
                None => !contains_id(self@, terminal_id@),
            },
    {
        let mut i: usize = 0;
        while i < self.entries.len()
            invariant
                0 <= i <= self.entries@.len(),
                self@.len() == self.entries@.len(),
                forall|k: int| 0 <= k < i ==> self@[k].task.id != terminal_id@,
            decreases self.entries@.len() - i,
        {
            if str_eq(self.entries[i].task.id().as_str(), terminal_id) {
                return Some(i);
            }
            i = i + 1;
        }
        None
    }

    /// Whether a session with this id is registered.
    pub fn has_terminal(&self, terminal_id: &str) -> (r: bool)
        ensures
            r == contains_id(self@, terminal_id@),
    {
        match self.find_index(terminal_id) {
            Some(_) => true,
            None => false,
        }
    }

    /// How many sessions are registered.
    pub fn terminal_count(&self) -> (r: usize)
        ensures
            r == self@.len(),
    {
        self.entries.len()
    }

    /// The metadata of the session with this id.
    pub fn get_terminal(&self, terminal_id: &str) -> (r: Option<&TerminalTask>)
        ensures
            r is Some <==> contains_id(self@, terminal_id@),
            r is Some ==> r->Some_0@.id == terminal_id@ && (exists|i: int|
                0 <= i < self@.len() && self@[i].task == r->Some_0@),
    {
        match self.find_index(terminal_id) {
            Some(i) => Some(&self.entries[i].task),
            None => None,
        }
    }

    /// A snapshot of the registered session ids.
    pub fn list_terminals(&self) -> (r: Vec<String>)
        ensures
            r@.len() == self@.len(),
            forall|i: int| 0 <= i < self@.len() ==> r@[i]@ == self@[i].task.id,
    {
        let mut out: Vec<String> = Vec::new();
        let mut i: usize = 0;
        while i < self.entries.len()
            invariant
                0 <= i <= self.entries@.len(),
                self@.len() == self.entries@.len(),
                out@.len() == i,
                forall|k: int| 0 <= k < i ==> out@[k]@ == self@[k].task.id,
            decreases self.entries@.len() - i,
        {
            out.push(self.entries[i].task.id().clone());
            i = i + 1;
        }
        out
    }

    /// Registers a session under a caller-supplied id: creates the worker's
    /// input queue and records the metadata. Succeeds exactly when the id is
    /// neither taken nor retired; the returned receiving end is handed to
    /// the session worker.
    pub fn register_session(&mut self, id: String, request: CreateTerminalRequest) -> (r: Option<
        tokio::sync::mpsc::UnboundedReceiver<WorkerMsg>,
    >)
        requires
            old(self).wf(),
        ensures
            final(self).wf(),
            r is Some <==> (!contains_id(old(self)@, id@) && !retired_contains(
                old(self).retired_ids(),
                id@,
            )),
            r is Some ==> final(self)@ == old(self)@.push(SessionModel {
                task: TaskModel {
                    id: id@,
                    name: request.name@,
                    worktree_id: request.worktree_id@,
                    working_directory: request.working_directory@,
                },
                attached: false,
            }),
            r is None ==> final(self)@ == old(self)@,
            final(self).retired_ids() == old(self).retired_ids(),
    {
        if self.has_terminal(id.as_str()) {
            return None;
        }
        if self.is_retired(id.as_str()) {
            return None;
        }
        let (tx, rx) = new_worker_channel();
        let ghost gid = id@;
        let task = TerminalTask::new(
            id,
            request.name,
            request.worktree_id,
            request.working_directory,
            tx,
        );
        let ghost m = SessionModel { task: task@, attached: false };
        self.entries.push(Entry { task, handle: None });
        proof {
            assert(self@ =~= old(self)@.push(m));
            assert forall|a: int, b: int|
                0 <= a < b < self@.len() implies self@[a].task.id != self@[b].task.id by {
                if b == self@.len() - 1 {
                    assert(self@[a] == old(self)@[a]);
                    assert(!contains_id(old(self)@, gid));
                }
            }
            assert forall|i: int|
                0 <= i < self@.len() implies !#[trigger] retired_contains(
                self.retired_ids(),
                self@[i].task.id,
            ) by {
                if i < self@.len() - 1 {
                    assert(self@[i] == old(self)@[i]);
                    assert(!retired_contains(old(self).retired_ids(), old(self)@[i].task.id));
                } else {
                    assert(self@[i].task.id == gid);
                }
            }
        }
        Some(rx)
    }

    /// Creates a session: decides the spawn policy for the request, draws a
    /// fresh identifier, creates the worker's input queue, and records the
    /// metadata. Returns the session's description, the spawn configuration
    /// the host must open the PTY and shell with, and the queue's receiving
    /// end for the session worker; creation returns without waiting for the
    /// shell to report readiness. An empty working directory is an invalid
    /// configuration and nothing is registered. The identifier is drawn at
    /// random, so a collision with a current or retired id is possible in
    /// principle; it is reported as a spawn failure and nothing is
    /// registered — on a registry that never held a session it cannot
    /// happen, and creation succeeds.
    pub fn create_terminal(&mut self, request: CreateTerminalRequest, windows: bool) -> (r: Result<
        (Terminal, SpawnConfig, tokio::sync::mpsc::UnboundedReceiver<WorkerMsg>),
        TerminalError,
    >)
        requires
            old(self).wf(),
        ensures
            final(self).wf(),
            r == Err::<
                (Terminal, SpawnConfig, tokio::sync::mpsc::UnboundedReceiver<WorkerMsg>),
                TerminalError,
            >(TerminalError::InvalidConfiguration) <==> request.working_directory@.len() == 0,
            r is Err ==> final(self)@ == old(self)@ && final(self).retired_ids() == old(
                self,
            ).retired_ids() && (r == Err::<
                (Terminal, SpawnConfig, tokio::sync::mpsc::UnboundedReceiver<WorkerMsg>),
                TerminalError,
            >(TerminalError::InvalidConfiguration) || r == Err::<
                (Terminal, SpawnConfig, tokio::sync::mpsc::UnboundedReceiver<WorkerMsg>),
                TerminalError,
            >(TerminalError::SpawnFailure)),
            r == Err::<
                (Terminal, SpawnConfig, tokio::sync::mpsc::UnboundedReceiver<WorkerMsg>),
                TerminalError,
            >(TerminalError::SpawnFailure) ==> old(self)@.len() + old(self).retired_ids().len()
                > 0,
            request.working_directory@.len() > 0 && old(self)@.len() == 0 && old(
                self,
            ).retired_ids().len() == 0 ==> r is Ok,
            r matches Ok(p) ==> ({
                &&& !contains_id(old(self)@, p.0.id@)
                &&& !retired_contains(old(self).retired_ids(), p.0.id@)
                &&& final(self)@ == old(self)@.push(SessionModel {
                    task: TaskModel {
                        id: p.0.id@,
                        name: request.name@,
                        worktree_id: request.worktree_id@,
                        working_directory: request.working_directory@,
                    },
                    attached: false,
                })
                &&& final(self).retired_ids() == old(self).retired_ids()
                &&& p.0.worktree_id@ == request.worktree_id@
                &&& p.0.name@ == request.name@
                &&& p.0.working_directory@ == request.working_directory@
                &&& p.0.terminal_type@ == "shell"@
                &&& p.0.is_active
                &&& p.1.working_directory@ == request.working_directory@
                &&& p.1.rows == DEFAULT_ROWS
                &&& p.1.cols == DEFAULT_COLS
                &&& (windows ==> p.1.program@ == "cmd.exe"@)
                &&& (!windows ==> p.1.program@ == "bash"@)
            }),
    {
        let config = match plan_session(&request, windows) {
            Ok(config) => config,
            Err(e) => {
                return Err(e);
            },
        };
        let id = fresh_session_id();
        let ghost gid = id@;
        let terminal = Terminal::of_session(
            id.clone(),
            request.worktree_id.clone(),
            request.name.clone(),
            request.working_directory.clone(),
        );
        match self.register_session(id, request) {
            Some(rx) => Ok((terminal, config, rx)),
            None => {
                proof {
                    if contains_id(old(self)@, gid) {
                        let w = choose|w: int|
                            0 <= w < old(self)@.len() && old(self)@[w].task.id == gid;
                        assert(old(self)@.len() > 0);
                    } else {
                        let w = choose|w: int|
                            0 <= w < old(self).retired_ids().len() && old(self).retired_ids()[w]
                                == gid;
                        assert(old(self).retired_ids().len() > 0);
                    }
                }
                Err(TerminalError::SpawnFailure)
            },
        }
    }

    /// Records the completion handle of the worker that was spawned for an
    /// already registered session. Fails with `NotFound` if the id is absent.
    pub fn attach_worker(
        &mut self,
        terminal_id: &str,
        handle: tokio::task::JoinHandle<Result<(), String>>,
    ) -> (r: Result<(), TerminalError>)
        requires
            old(self).wf(),
        ensures
            final(self).wf(),
            r is Ok <==> contains_id(old(self)@, terminal_id@),
            r is Err ==> r == Err::<(), TerminalError>(TerminalError::NotFound)
                && final(self)@ == old(self)@,
            r is Ok ==> exists|i: int|
                0 <= i < old(self)@.len() && old(self)@[i].task.id == terminal_id@
                    && final(self)@ == old(self)@.update(i, SessionModel {
                    task: old(self)@[i].task,
                    attached: true,
                }),
            forall|id: Seq<char>|
                contains_id(final(self)@, id) == contains_id(old(self)@, id),
            final(self).retired_ids() == old(self).retired_ids(),
    {
        match self.find_index(terminal_id) {
            None => Err(TerminalError::NotFound),
            Some(i) => {
                let ghost gi = i as int;
                let e = entry_mut(&mut self.entries, i);
                e.handle = Some(handle);
                proof {
                    assert(self@ =~= old(self)@.update(gi, SessionModel {
                        task: old(self)@[gi].task,
                        attached: true,
                    }));
                    assert(forall|a: int, b: int|
                        0 <= a < b < self@.len() ==> self@[a].task.id != self@[b].task.id);
                    assert forall|j: int|
                        0 <= j < self@.len() implies !#[trigger] retired_contains(
                        self.retired_ids(),
                        self@[j].task.id,
                    ) by {
                        if j == gi {
                            assert(self@[j].task.id == old(self)@[j].task.id);
                        } else {
                            assert(self@[j] == old(self)@[j]);
                        }
                        assert(!retired_contains(old(self).retired_ids(), old(self)@[j].task.id));
                    }
                    assert forall|id: Seq<char>|
                        contains_id(self@, id) == contains_id(old(self)@, id) by {
                        if contains_id(self@, id) {
                            let w = choose|w: int|
                                0 <= w < self@.len() && self@[w].task.id == id;
                            assert(old(self)@[w].task.id == id);
                        }
                        if contains_id(old(self)@, id) {
                            let w = choose|w: int|
                                0 <= w < old(self)@.len() && old(self)@[w].task.id == id;
                            assert(self@[w].task.id == id);
                        }
                    }
                }
                Ok(())
            },
        }
    }

    /// Enqueues input text for the session's worker, in FIFO order relative
    /// to other calls on the same session. Fails with `NotFound` when the id
    /// is absent, or when the worker has already ended and its queue is gone.
    pub fn send_input(&self, terminal_id: &str, data: &str) -> (r: Result<(), TerminalError>)
        ensures
            !contains_id(self@, terminal_id@) ==> r == Err::<(), TerminalError>(
                TerminalError::NotFound,
            ),
            r is Err ==> r == Err::<(), TerminalError>(TerminalError::NotFound),
    {
        match self.find_index(terminal_id) {
            None => Err(TerminalError::NotFound),
            Some(i) => {
                if self.entries[i].task.send_input(data) {
                    Ok(())
                } else {
                    Err(TerminalError::NotFound)
                }
            },
        }
    }

    /// Forwards a geometry change to the session's worker, which applies it
    /// to the live PTY. Fails with `NotFound` under the same conditions as
    /// `send_input`.
    pub fn resize_terminal(&self, terminal_id: &str, cols: u16, rows: u16) -> (r: Result<
        (),
        TerminalError,
    >)
        ensures
            !contains_id(self@, terminal_id@) ==> r == Err::<(), TerminalError>(
                TerminalError::NotFound,
            ),
            r is Err ==> r == Err::<(), TerminalError>(TerminalError::NotFound),
    {
        match self.find_index(terminal_id) {
            None => Err(TerminalError::NotFound),
            Some(i) => {
                if self.entries[i].task.send_resize(cols, rows) {
                    Ok(())
                } else {
                    Err(TerminalError::NotFound)
                }
            },
        }
    }

    /// Removes the session from the registry and retires its id. Removing
    /// the entry drops the worker's input-queue sender: the worker observes
    /// the closed queue at its next suspension point and shuts down
    /// cooperatively, killing the child and releasing the PTY on that path.
    /// Best effort: the call does not wait for the child process to exit.
    /// Fails with `NotFound` when the id was never registered or was already
    /// closed; afterwards the id is gone for good and is never reused.
    pub fn close_terminal(&mut self, terminal_id: &str) -> (r: Result<(), TerminalError>)
        requires
            old(self).wf(),
        ensures
            final(self).wf(),
            r is Ok <==> contains_id(old(self)@, terminal_id@),
            r is Err ==> r == Err::<(), TerminalError>(TerminalError::NotFound)
                && final(self)@ == old(self)@ && final(self).retired_ids() == old(
                self,
            ).retired_ids(),
            r is Ok ==> exists|i: int|
                0 <= i < old(self)@.len() && old(self)@[i].task.id == terminal_id@
                    && final(self)@ == old(self)@.remove(i),
            r is Ok ==> final(self).retired_ids() == old(self).retired_ids().push(terminal_id@),
            !contains_id(final(self)@, terminal_id@),
    {
        match self.find_index(terminal_id) {
            None => Err(TerminalError::NotFound),
            Some(i) => {
                let ghost gi = i as int;
                let entry = self.entries.remove(i);
                let _ = entry;
                self.retired.push(terminal_id.to_owned());
                proof {
                    assert(self@ =~= old(self)@.remove(gi));
                    assert(self.retired_ids() =~= old(self).retired_ids().push(terminal_id@));
                    lemma_close_is_final(old(self)@, gi);
                    assert forall|j: int|
                        0 <= j < self@.len() implies !#[trigger] retired_contains(
                        self.retired_ids(),
                        self@[j].task.id,
                    ) by {
                        if j < gi {
                            assert(self@[j] == old(self)@[j]);
                        } else {
                            assert(self@[j] == old(self)@[j + 1]);
                        }
                        assert(!retired_contains(old(self).retired_ids(), self@[j].task.id));
                        if retired_contains(self.retired_ids(), self@[j].task.id) {
                            let w = choose|w: int|
                                0 <= w < self.retired_ids().len() && self.retired_ids()[w]
                                    == self@[j].task.id;
                            if w < old(self).retired_ids().len() {
                                assert(old(self).retired_ids()[w] == self@[j].task.id);
                            } else {
                                assert(self@[j].task.id == terminal_id@);
                                assert(old(self)@[gi].task.id == terminal_id@);
                            }
                        }
                    }
                }
                Ok(())
            },
        }
    }

    /// Removes every entry whose worker has already completed, normally or
    /// by crash, without an explicit close, and retires its id. Entries
    /// whose worker handle has not been attached yet are always kept; every
    /// surviving entry is an unchanged entry of the old registry, no id is
    /// ever added, no retired id is forgotten, and every removed id is
    /// retired.
    pub fn cleanup_completed_tasks(&mut self)
        requires
            old(self).wf(),
        ensures
            final(self).wf(),
            final(self)@.len() <= old(self)@.len(),
            forall|j: int| 0 <= j < final(self)@.len() ==> contains_model(
                old(self)@,
                final(self)@[j],
            ),
            forall|i: int|
                0 <= i < old(self)@.len() && !old(self)@[i].attached ==> contains_model(
                    final(self)@,
                    old(self)@[i],
                ),
            forall|id: Seq<char>|
                contains_id(final(self)@, id) ==> contains_id(old(self)@, id),
            forall|x: Seq<char>|
                #[trigger] retired_contains(old(self).retired_ids(), x) ==> retired_contains(
                    final(self).retired_ids(),
                    x,
                ),
            forall|id: Seq<char>|
                #[trigger] contains_id(old(self)@, id) && !contains_id(final(self)@, id)
                    ==> retired_contains(final(self).retired_ids(), id),
    {
        let ghost orig = self@;
        let ghost orig_retired = self.retired_ids();
        let ghost n = orig.len() as int;
        let ghost mut dropped: Seq<Seq<char>> = Seq::empty();
        let mut kept: Vec<Entry> = Vec::new();
        proof {
            assert(orig_retired + dropped =~= orig_retired);
        }
        while self.entries.len() > 0
            invariant
                unique_ids(orig),
                forall|i: int|
                    0 <= i < orig.len() ==> !#[trigger] retired_contains(
                        orig_retired,
                        orig[i].task.id,
                    ),
                n == orig.len(),
                self@.len() <= n,
                self@ =~= orig.subrange(n - self@.len(), n),
                models(kept@).len() + self@.len() <= n,
                self.retired_ids() == orig_retired + dropped,
                forall|k: int|
                    0 <= k < dropped.len() ==> #[trigger] id_in_prefix(
                        orig,
                        n - self@.len(),
                        dropped[k],
                    ),
                forall|j: int|
                    0 <= j < models(kept@).len() ==> #[trigger] in_prefix(
                        orig,
                        n - self@.len(),
                        models(kept@)[j],
                    ),
                forall|i: int|
                    0 <= i < n - self@.len() ==> #[trigger] contains_model(
                        models(kept@),
                        orig[i],
                    ) || retired_contains(self.retired_ids(), orig[i].task.id),
                forall|i: int|
                    0 <= i < n - self@.len() && !orig[i].attached ==> #[trigger] contains_model(
                        models(kept@),
                        orig[i],
                    ),
                forall|j: int|
                    0 <= j < models(kept@).len() ==> !#[trigger] retired_contains(
                        self.retired_ids(),
                        models(kept@)[j].task.id,
                    ),
                unique_ids(models(kept@)),
            decreases self.entries@.len(),
        {
            let ghost done = n - self@.len();
            let ghost pre = models(kept@);
            let ghost pre_retired = self.retired_ids();
            let ghost pre_dropped = dropped;
            let ghost pre_entries = self.entries@;
            let ghost before = self@;
            let e = self.entries.remove(0);
            proof {
                pre_entries.remove_ensures(0);
                assert(before[0] == entry_model(pre_entries[0]));
                assert(entry_model(e) == orig[done]);
                assert forall|k: int| 0 <= k < self@.len() implies self@[k] == orig[done + 1
                    + k] by {
                    assert(self.entries@[k] == pre_entries[k + 1]);
                    assert(self@[k] == entry_model(self.entries@[k]));
                    assert(before[k + 1] == entry_model(pre_entries[k + 1]));
                    assert(before[k + 1] == orig.subrange(done, n)[k + 1]);
                }
                assert(self@ =~= orig.subrange(n - self@.len(), n));
            }
            let finished = match &e.handle {
                Some(h) => worker_is_finished(h),
                None => false,
            };
            if !finished {
                kept.push(e);
                proof {
                    assert(models(kept@) =~= pre.push(orig[done]));
                    assert forall|j: int| 0 <= j < models(kept@).len() implies #[trigger] in_prefix(
                        orig,
                        done + 1,
                        models(kept@)[j],
                    ) by {
                        if j < pre.len() {
                            assert(models(kept@)[j] == pre[j]);
                            assert(in_prefix(orig, done, pre[j]));
                            lemma_in_prefix_widen(orig, done, done + 1, pre[j]);
                        } else {
                            assert(models(kept@)[j] == orig[done]);
                            assert(0 <= done < done + 1 && done < orig.len() && orig[done]
                                == models(kept@)[j]);
                        }
                    }
                    assert forall|k: int|
                        0 <= k < dropped.len() implies #[trigger] id_in_prefix(
                        orig,
                        done + 1,
                        dropped[k],
                    ) by {
                        assert(id_in_prefix(orig, done, dropped[k]));
                        let d = choose|d: int|
                            0 <= d < done && d < orig.len() && orig[d].task.id == dropped[k];
                        assert(0 <= d < done + 1 && d < orig.len() && orig[d].task.id
                            == dropped[k]);
                    }
                    assert forall|i: int|
                        0 <= i < done + 1 implies #[trigger] contains_model(
                        models(kept@),
                        orig[i],
                    ) || retired_contains(self.retired_ids(), orig[i].task.id) by {
                        if i < done {
                            if contains_model(pre, orig[i]) {
                                lemma_contains_model_push(pre, orig[done], orig[i]);
                                assert(models(kept@) == pre.push(orig[done]));
                            }
                        } else {
                            assert(models(kept@)[pre.len() as int] == orig[done]);
                        }
                    }
                    assert forall|i: int|
                        0 <= i < done + 1 && !orig[i].attached implies #[trigger] contains_model(
                        models(kept@),
                        orig[i],
                    ) by {
                        if i < done {
                            assert(contains_model(pre, orig[i]));
                            lemma_contains_model_push(pre, orig[done], orig[i]);
                            assert(models(kept@) == pre.push(orig[done]));
                        } else {
                            assert(models(kept@)[pre.len() as int] == orig[done]);
                        }
                    }
                    assert forall|j: int|
                        0 <= j < models(kept@).len() implies !#[trigger] retired_contains(
                        self.retired_ids(),
                        models(kept@)[j].task.id,
                    ) by {
                        if j < pre.len() {
                            assert(models(kept@)[j] == pre[j]);
                        } else {
                            assert(models(kept@)[j] == orig[done]);
                            if retired_contains(self.retired_ids(), orig[done].task.id) {
                                let w = choose|w: int|
                                    0 <= w < self.retired_ids().len() && self.retired_ids()[w]
                                        == orig[done].task.id;
                                if w < orig_retired.len() {
                                    assert(retired_contains(orig_retired, orig[done].task.id));
                                } else {
                                    assert(dropped[w - orig_retired.len()] == orig[done].task.id);
                                    assert(id_in_prefix(orig, done, dropped[w
                                        - orig_retired.len()]));
                                    let d = choose|d: int|
                                        0 <= d < done && d < orig.len() && orig[d].task.id
                                            == dropped[w - orig_retired.len()];
                                    assert(orig[d].task.id != orig[done].task.id);
                                }
                            }
                        }
                    }
                    assert forall|a: int, b: int|
                        0 <= a < b < models(kept@).len() implies models(kept@)[a].task.id != models(
                        kept@,
                    )[b].task.id by {
                        if b == pre.len() {
                            assert(in_prefix(orig, done, pre[a]));
                            let w = choose|w: int| 0 <= w < done && w < orig.len() && orig[w]
                                == pre[a];
                            assert(orig[w].task.id != orig[done].task.id);
                        }
                    }
                }
            } else {
                self.retired.push(e.task.id().clone());
                proof {
                    dropped = pre_dropped.push(orig[done].task.id);
                    assert(self.retired_ids() =~= pre_retired.push(orig[done].task.id));
                    assert(self.retired_ids() =~= orig_retired + dropped);
                    assert(orig[done].attached);
                    assert forall|j: int|
                        0 <= j < models(kept@).len() implies #[trigger] in_prefix(
                        orig,
                        done + 1,
                        models(kept@)[j],
                    ) by {
                        assert(in_prefix(orig, done, models(kept@)[j]));
                        lemma_in_prefix_widen(orig, done, done + 1, models(kept@)[j]);
                    }
                    assert forall|k: int|
                        0 <= k < dropped.len() implies #[trigger] id_in_prefix(
                        orig,
                        done + 1,
                        dropped[k],
                    ) by {
                        if k < pre_dropped.len() {
                            assert(dropped[k] == pre_dropped[k]);
                            assert(id_in_prefix(orig, done, pre_dropped[k]));
                            let d = choose|d: int|
                                0 <= d < done && d < orig.len() && orig[d].task.id
                                    == pre_dropped[k];
                            assert(0 <= d < done + 1 && d < orig.len() && orig[d].task.id
                                == dropped[k]);
                        } else {
                            assert(dropped[k] == orig[done].task.id);
                            assert(0 <= done < done + 1 && done < orig.len() && orig[done].task.id
                                == dropped[k]);
                        }
                    }
                    assert forall|i: int|
                        0 <= i < done + 1 implies #[trigger] contains_model(
                        models(kept@),
                        orig[i],
                    ) || retired_contains(self.retired_ids(), orig[i].task.id) by {
                        if i < done {
                            if retired_contains(pre_retired, orig[i].task.id) {
                                let w = choose|w: int|
                                    0 <= w < pre_retired.len() && pre_retired[w]
                                        == orig[i].task.id;
                                assert(self.retired_ids()[w] == orig[i].task.id);
                            }
                        } else {
                            assert(self.retired_ids()[pre_retired.len() as int]
                                == orig[done].task.id);
                        }
                    }
                    assert forall|j: int|
                        0 <= j < models(kept@).len() implies !#[trigger] retired_contains(
                        self.retired_ids(),
                        models(kept@)[j].task.id,
                    ) by {
                        assert(!retired_contains(pre_retired, models(kept@)[j].task.id));
                        if retired_contains(self.retired_ids(), models(kept@)[j].task.id) {
                            let w = choose|w: int|
                                0 <= w < self.retired_ids().len() && self.retired_ids()[w]
                                    == models(kept@)[j].task.id;
                            if w < pre_retired.len() {
                                assert(pre_retired[w] == models(kept@)[j].task.id);
                            } else {
                                assert(models(kept@)[j].task.id == orig[done].task.id);
                                assert(in_prefix(orig, done, models(kept@)[j]));
                                let d = choose|d: int|
                                    0 <= d < done && d < orig.len() && orig[d] == models(
                                        kept@,
                                    )[j];
                                assert(orig[d].task.id != orig[done].task.id);
                            }
                        }
                    }
                }
            }
        }
        self.entries = kept;
        proof {
            assert forall|j: int| 0 <= j < self@.len() implies #[trigger] contains_model(
                orig,
                self@[j],
            ) by {
                assert(in_prefix(orig, n, self@[j]));
            }
            assert forall|id: Seq<char>| contains_id(self@, id) implies contains_id(
                orig,
                id,
            ) by {
                let j = choose|j: int| 0 <= j < self@.len() && self@[j].task.id == id;
                assert(contains_model(orig, self@[j]));
                let i = choose|i: int| 0 <= i < orig.len() && orig[i] == self@[j];
                assert(orig[i].task.id == id);
            }
            assert forall|x: Seq<char>|
                #[trigger] retired_contains(orig_retired, x) implies retired_contains(
                self.retired_ids(),
                x,
            ) by {
                let w = choose|w: int| 0 <= w < orig_retired.len() && orig_retired[w] == x;
                assert(self.retired_ids()[w] == x);
            }
            assert forall|id: Seq<char>|
                #[trigger] contains_id(orig, id) && !contains_id(self@, id)
                    implies retired_contains(self.retired_ids(), id) by {
                let i = choose|i: int| 0 <= i < orig.len() && orig[i].task.id == id;
                assert(contains_model(models(kept@), orig[i]) || retired_contains(
                    self.retired_ids(),
                    orig[i].task.id,
                ));
                if contains_model(models(kept@), orig[i]) {
                    let j = choose|j: int|
                        0 <= j < models(kept@).len() && models(kept@)[j] == orig[i];
                    assert(self@[j].task.id == id);
                }
            }
        }
    }
}

impl Default for TerminalManager {
    /// An empty registry.
    fn default() -> (r: TerminalManager)
        ensures
            r@ =~= Seq::<SessionModel>::empty(),
            r.retired_ids() =~= Seq::<Seq<char>>::empty(),
            r.wf(),
    {
        TerminalManager::new()
    }
}

/// A mutable borrow of one vector element, with the final vector expressed
/// in terms of the final element.
fn entry_mut(v: &mut Vec<Entry>, i: usize) -> (e: &mut Entry)
    requires
        i < old(v)@.len(),
    ensures
        *e == old(v)@[i as int],
        final(v)@ == old(v)@.update(i as int, *final(e)),
{
    &mut v[i]
}

proof fn lemma_in_prefix_widen(s: Seq<SessionModel>, bound: int, bound2: int, m: SessionModel)
    requires
        in_prefix(s, bound, m),
        bound <= bound2,
    ensures
        in_prefix(s, bound2, m),
{
    let w = choose|w: int| 0 <= w < bound && w < s.len() && s[w] == m;
    assert(0 <= w < bound2 && w < s.len() && s[w] == m);
}

proof fn lemma_contains_model_push(s: Seq<SessionModel>, m: SessionModel, x: SessionModel)
    requires
        contains_model(s, x),
    ensures
        contains_model(s.push(m), x),
{
    let i = choose|i: int| 0 <= i < s.len() && s[i] == x;
    assert(s.push(m)[i] == x);
}

/// Law: a session just created is listed — registering an entry makes its id
/// contained, whatever the registry held before.
pub proof fn lemma_created_is_listed(s: Seq<SessionModel>, m: SessionModel)
    ensures
        contains_id(s.push(m), m.task.id),
{
    assert(s.push(m)[s.len() as int] == m);
}

/// Law: closing one session never touches another — removing the entry at
/// `i` keeps every id other than the removed one contained.
pub proof fn lemma_close_keeps_others(s: Seq<SessionModel>, i: int, other: Seq<char>)
    requires
        0 <= i < s.len(),
        s[i].task.id != other,
        contains_id(s, other),
    ensures
        contains_id(s.remove(i), other),
{
    let w = choose|w: int| 0 <= w < s.len() && s[w].task.id == other;
    if w < i {
        assert(s.remove(i)[w] == s[w]);
    } else {
        assert(s.remove(i)[w - 1] == s[w]);
    }
}

/// Law: in a registry with unique ids, removing the entry at `i` removes its
/// id for good — the id is no longer contained, so a second close of the
/// same id must report the session missing, and uniqueness is preserved.
pub proof fn lemma_close_is_final(s: Seq<SessionModel>, i: int)
    requires
        unique_ids(s),
        0 <= i < s.len(),
    ensures
        !contains_id(s.remove(i), s[i].task.id),
        unique_ids(s.remove(i)),
{
    assert forall|j: int| 0 <= j < s.remove(i).len() implies s.remove(i)[j].task.id
        != s[i].task.id by {
        if j < i {
            assert(s.remove(i)[j] == s[j]);
        } else {
            assert(s.remove(i)[j] == s[j + 1]);
        }
    }
}

} // verus!
