//! Indexing the boards of a workspace with the AI engine, and the background worker that keeps
//! the embedding stores in step with the boards.
use vstd::prelude::*;
use crate::ai_engine::PythonResponse;
use crate::error::AppError;
use crate::state_manager::{StateManager, TaskFinished};
use crate::tasks::{TaskView, finish_message_spec};
use crate::path_utils::opt_text;
use crate::workspaces::contains_id;

verus! {

/// How far the indexing of a board has come.
#[derive(Debug, Clone, Copy)]
pub struct IndexProgress {
    pub done: u32,
    pub total: u32,
}

/// The id of the indexing task.
pub open spec fn index_task_id() -> Seq<char> {
    "ai-index"@
}

/// The message of the indexing task while a board is prepared.
pub open spec fn board_message(board_path: Seq<char>) -> Seq<char> {
    "Indexing board: "@ + board_path
}

/// The indexing task as a running task, with the given message and counts.
pub open spec fn index_task_matches(t: TaskView, message: Seq<char>, done: int, total: int) -> bool {
    &&& t.id == index_task_id()
    &&& t.task_type == "indexing"@
    &&& t.status == "running"@
    &&& t.message == Some(message)
    &&& t.progress == done
    &&& t.total == total
}

/// What stays the same when only the tasks change.
pub open spec fn only_tasks_changed(before: StateManager, after: StateManager) -> bool {
    &&& after.spec_dirty()
    &&& after.spec_config() == before.spec_config()
    &&& after.transient.ai == before.transient.ai
    &&& after.transient.is_scanning == before.transient.is_scanning
}

/// The task board after the indexing task was finished, and the announced event.
pub open spec fn index_task_finished(
    before: StateManager,
    after: StateManager,
    ev: TaskFinished,
    status: Seq<char>,
    message: Option<Seq<char>>,
) -> bool {
    &&& only_tasks_changed(before, after)
    &&& after.transient.active_tasks@ == before.transient.active_tasks@.remove(index_task_id())
    &&& ev.id@ == index_task_id()
    &&& ev.status@ == status
    &&& opt_text(ev.message) == finish_message_spec(
        message,
        if before.transient.active_tasks@.contains_key(index_task_id()) {
            Some(before.transient.active_tasks@[index_task_id()])
        } else {
            None
        },
    )
}

/// Marks the indexing task as running on a board: `Indexing board: <path>`, at 0 of 0.
pub fn begin_board_indexing(manager: &mut StateManager, board_path: &str)
    ensures
        only_tasks_changed(*old(manager), *final(manager)),
        final(manager).transient.active_tasks@.contains_key(index_task_id()),
        index_task_matches(
            final(manager).transient.active_tasks@[index_task_id()],
            board_message(board_path@),
            0,
            0,
        ),
        final(manager).transient.active_tasks@ == old(manager).transient.active_tasks@.insert(
            index_task_id(),
            final(manager).transient.active_tasks@[index_task_id()],
        ),
{
    let mut msg = "Indexing board: ".to_string();
    msg.append(board_path);
    let id = "ai-index";
    proof {
        reveal_strlit("ai-index");
    }
    manager.update_task(id, "indexing", "running", Some(msg.as_str()), 0, 0);
}

/// Ends the indexing task as `failed` when a board's inventory could not be synced.
pub fn fail_board_indexing(manager: &mut StateManager) -> (ev: TaskFinished)
    ensures
        index_task_finished(
            *old(manager),
            *final(manager),
            ev,
            "failed"@,
            Some("AI inventory sync failed"@),
        ),
{
    let id = "ai-index";
    proof {
        reveal_strlit("ai-index");
    }
    manager.finish_task(id, "failed", Some("AI inventory sync failed"))
}

/// Ends the indexing task as `completed` once every board was handled.
pub fn complete_indexing(manager: &mut StateManager) -> (ev: TaskFinished)
    ensures
        index_task_finished(*old(manager), *final(manager), ev, "completed"@, None),
{
    let id = "ai-index";
    proof {
        reveal_strlit("ai-index");
    }
    manager.finish_task(id, "completed", None)
}

/// What follows a reply of the engine while it indexes a board.
#[derive(Debug, Clone)]
pub enum IndexNext {
    /// Keep reading replies.
    ReadMore,
    /// The board is indexed: mark it as in sync and go on with the next board.
    BoardDone,
    /// The engine failed: stop and report this error.
    Failed(AppError),
    /// Indexing was cancelled: stop the engine and go on with the next board.
    Cancelled,
}

/// The embeddings counted by a reply: `done` of a success, else none.
pub open spec fn reply_done(resp: PythonResponse) -> int {
    match resp {
        PythonResponse::Success { done, .. } => match done {
            Some(d) => d as int,
            None => 0,
        },
        _ => 0,
    }
}

/// What follows a reply, given whether indexing was cancelled.
pub open spec fn index_next_kind(resp: PythonResponse, cancelled: bool) -> int {
    match resp {
        PythonResponse::Success { .. } => 1,
        PythonResponse::Error { .. } => 2,
        _ => if cancelled {
            3
        } else {
            0
        },
    }
}

/// The kind of an `IndexNext`.
pub open spec fn next_kind(n: IndexNext) -> int {
    match n {
        IndexNext::ReadMore => 0,
        IndexNext::BoardDone => 1,
        IndexNext::Failed(_) => 2,
        IndexNext::Cancelled => 3,
    }
}

/// The outcome of one reply: what follows, the running count of new embeddings, and the event
/// to announce when the task ended.
pub struct IndexReplyOutcome {
    pub next: IndexNext,
    pub total_indexed: u32,
    pub finished: Option<TaskFinished>,
}

/// Handles one reply of the engine while it indexes a board. A success adds its `done` count
/// and ends the board. A progress report updates the task (`Indexing images...`, done of
/// total). An error ends the task as `error` with its message and is reported. After a progress
/// report or another reply, a cancellation ends the task as `cancelled`.
pub fn apply_index_reply(
    manager: &mut StateManager,
    resp: &PythonResponse,
    total_indexed: u32,
    cancelled: bool,
) -> (out: IndexReplyOutcome)
    requires
        total_indexed + reply_done(*resp) <= u32::MAX,
    ensures
        next_kind(out.next) == index_next_kind(*resp, cancelled),
        out.total_indexed == total_indexed + reply_done(*resp),
        final(manager).spec_config() == old(manager).spec_config(),
        final(manager).transient.ai == old(manager).transient.ai,
        final(manager).transient.is_scanning == old(manager).transient.is_scanning,
        resp is Success ==> out.finished is None && *final(manager) == *old(manager),
        resp matches PythonResponse::Error { message } ==> ({
            &&& (out.next matches IndexNext::Failed(AppError::AiError(m)) && m@ == message@)
            &&& (out.finished matches Some(ev) && index_task_finished(
                *old(manager),
                *final(manager),
                ev,
                "error"@,
                Some(message@),
            ))
        }),
        resp matches PythonResponse::Progress { done, total } ==> ({
            let mid = final(manager).transient.active_tasks@;
            &&& mid.contains_key(index_task_id()) || cancelled
            &&& !cancelled ==> out.finished is None && only_tasks_changed(
                *old(manager),
                *final(manager),
            ) && index_task_matches(
                mid[index_task_id()],
                "Indexing images..."@,
                done as int,
                total as int,
            ) && mid == old(manager).transient.active_tasks@.insert(
                index_task_id(),
                mid[index_task_id()],
            )
            &&& cancelled ==> (out.finished matches Some(ev) && ev.id@ == index_task_id()
                && ev.status@ == "cancelled"@ && final(manager).spec_dirty() && mid
                == old(manager).transient.active_tasks@.remove(index_task_id()))
        }),
        resp is Other ==> ({
            &&& !cancelled ==> out.finished is None && *final(manager) == *old(manager)
            &&& cancelled ==> (out.finished matches Some(ev) && index_task_finished(
                *old(manager),
                *final(manager),
                ev,
                "cancelled"@,
                None,
            ))
        }),
{
    let id = "ai-index";
    proof {
        reveal_strlit("ai-index");
    }
    match resp {
        PythonResponse::Success { done, .. } => {
            let d: u32 = match done {
                Some(d) => *d,
                None => 0,
            };
            return IndexReplyOutcome {
                next: IndexNext::BoardDone,
                total_indexed: total_indexed + d,
                finished: None,
            };
        },
        PythonResponse::Progress { done, total } => {
            manager.update_task(
                id,
                "indexing",
                "running",
                Some("Indexing images..."),
                *done as i64,
                *total as i64,
            );
        },
        PythonResponse::Error { message } => {
            let ev = manager.finish_task(id, "error", Some(message.as_str()));
            return IndexReplyOutcome {
                next: IndexNext::Failed(AppError::AiError(message.clone())),
                total_indexed,
                finished: Some(ev),
            };
        },
        PythonResponse::Other => {},
    }
    if cancelled {
        let ev = manager.finish_task(id, "cancelled", None);
        IndexReplyOutcome { next: IndexNext::Cancelled, total_indexed, finished: Some(ev) }
    } else {
        IndexReplyOutcome { next: IndexNext::ReadMore, total_indexed, finished: None }
    }
}

/// What the maintenance worker does on one turn.
#[derive(Debug, Clone, Copy, PartialEq, Eq, Structural)]
pub enum WorkerGate {
    /// The background loops were asked to stop.
    Stop,
    /// Nothing to do now: wait and look again.
    Idle,
    /// Look for boards whose embeddings are out of date.
    Proceed,
}

/// The seconds the worker waits when it has nothing to do.
pub const WORKER_IDLE_SECS: u64 = 15;

/// The seconds the worker waits after a round of work.
pub const WORKER_PAUSE_SECS: u64 = 5;

/// The worker stops when cancelled, idles without an open workspace or with the AI disabled,
/// and proceeds otherwise.
pub fn worker_gate(cancelled: bool, has_workspace: bool, ai_enabled: bool) -> (g: WorkerGate)
    ensures
        cancelled ==> g == WorkerGate::Stop,
        !cancelled && (!has_workspace || !ai_enabled) ==> g == WorkerGate::Idle,
        !cancelled && has_workspace && ai_enabled ==> g == WorkerGate::Proceed,
{
    if cancelled {
        WorkerGate::Stop
    } else if !has_workspace || !ai_enabled {
        WorkerGate::Idle
    } else {
        WorkerGate::Proceed
    }
}

/// The id and path of a board, as plain values.
pub open spec fn board_entry_view(e: (i32, String)) -> (i32, Seq<char>) {
    (e.0, e.1@)
}

/// Whether a board is one of the workspace's.
pub open spec fn in_workspace(ids: Seq<i32>) -> spec_fn((i32, Seq<char>)) -> bool {
    |e: (i32, Seq<char>)| ids.contains(e.0)
}

/// The boards waiting for an AI sync that belong to the workspace, in the order given.
pub fn boards_to_sync(pending: Vec<(i32, String)>, board_ids: &Vec<i32>) -> (r: Vec<(i32, String)>)
    ensures
        r@.map_values(|e: (i32, String)| board_entry_view(e)) == pending@.map_values(
            |e: (i32, String)| board_entry_view(e),
        ).filter(in_workspace(board_ids@)),
{
    let ghost src = pending@.map_values(|e: (i32, String)| board_entry_view(e));
    let mut r: Vec<(i32, String)> = Vec::new();
    let mut i: usize = 0;
    let n = pending.len();
    while i < n
        invariant
            n == pending@.len(),
            i <= n,
            src == pending@.map_values(|e: (i32, String)| board_entry_view(e)),
            r@.map_values(|e: (i32, String)| board_entry_view(e)) == src.take(i as int).filter(
                in_workspace(board_ids@),
            ),
        decreases n - i,
    {
        let id = pending[i].0;
        let ghost before = r@;
        proof {
            assert(src.take(i + 1) =~= src.take(i as int).push(src[i as int]));
            src.take(i as int).lemma_filter_push(src[i as int], in_workspace(board_ids@));
        }
        let found = contains_id(board_ids, id);
        if found {
            r.push((id, pending[i].1.clone()));
            proof {
                assert(r@.map_values(|e: (i32, String)| board_entry_view(e)) =~= before.map_values(
                    |e: (i32, String)| board_entry_view(e),
                ).push(src[i as int]));
            }
        }
        i = i + 1;
    }
    proof {
        assert(src.take(n as int) =~= src);
    }
    r
}

} // verus!
