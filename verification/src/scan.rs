//! The library scan as the user sees it: the scanning flag and the `workspace-scan` task, from
//! the start of a scan through each folder to its end.
use vstd::prelude::*;
use crate::embeddings::{decimal_text, push_decimal};
use crate::indexing::only_tasks_changed;
use crate::path_utils::opt_text;
use crate::state_manager::{StateManager, TaskFinished};
use crate::tasks::{TaskView, finish_message_spec};

verus! {

/// The id of the scan task.
pub open spec fn scan_task_id() -> Seq<char> {
    "workspace-scan"@
}

/// The scan task as running, with the given message and counts.
pub open spec fn scan_task_matches(t: TaskView, message: Seq<char>, done: int, total: int) -> bool {
    &&& t.id == scan_task_id()
    &&& t.task_type == "scan"@
    &&& t.status == "running"@
    &&& t.message == Some(message)
    &&& t.progress == done
    &&& t.total == total
}

/// The tasks after the scan task was set, leaving the others.
pub open spec fn scan_task_set(before: StateManager, after: StateManager, message: Seq<char>, done: int, total: int) -> bool {
    &&& after.transient.active_tasks@.contains_key(scan_task_id())
    &&& scan_task_matches(after.transient.active_tasks@[scan_task_id()], message, done, total)
    &&& after.transient.active_tasks@ == before.transient.active_tasks@.insert(
        scan_task_id(),
        after.transient.active_tasks@[scan_task_id()],
    )
}

/// A scan starts: the scanning flag is raised and the scan task reads `Scanning library...`.
pub fn begin_scan(manager: &mut StateManager)
    ensures
        final(manager).transient.is_scanning,
        final(manager).spec_dirty(),
        final(manager).spec_config() == old(manager).spec_config(),
        final(manager).transient.ai == old(manager).transient.ai,
        scan_task_set(*old(manager), *final(manager), "Scanning library..."@, 0, 0),
{
    manager.set_scanning(true);
    let id = "workspace-scan";
    proof {
        reveal_strlit("workspace-scan");
    }
    manager.update_task(id, "scan", "running", Some("Scanning library..."), 0, 0);
}

/// The message while folder `index` (from 0) of `count` is scanned.
pub open spec fn folder_message(index: nat, count: nat) -> Seq<char> {
    "Scanning folder "@ + decimal_text(index + 1) + " of "@ + decimal_text(count) + "..."@
}

/// Reports that folder `index` (from 0) of `count` is being scanned: `Scanning folder i of n...`,
/// at `i` of `n`.
pub fn scan_folder_progress(manager: &mut StateManager, index: usize, count: usize)
    requires
        index < count,
        count <= i64::MAX,
    ensures
        only_tasks_changed(*old(manager), *final(manager)),
        scan_task_set(
            *old(manager),
            *final(manager),
            folder_message(index as nat, count as nat),
            index + 1,
            count as int,
        ),
{
    let mut msg = "Scanning folder ".to_string();
    push_decimal(index + 1, &mut msg);
    msg.append(" of ");
    push_decimal(count, &mut msg);
    msg.append("...");
    let id = "workspace-scan";
    proof {
        reveal_strlit("workspace-scan");
    }
    manager.update_task(id, "scan", "running", Some(msg.as_str()), (index + 1) as i64, count as i64);
}

/// Reports that every folder was scanned: `Scan complete`, at `count` of `count`.
pub fn scan_complete_progress(manager: &mut StateManager, count: usize)
    requires
        count <= i64::MAX,
    ensures
        only_tasks_changed(*old(manager), *final(manager)),
        scan_task_set(*old(manager), *final(manager), "Scan complete"@, count as int, count as int),
{
    let id = "workspace-scan";
    proof {
        reveal_strlit("workspace-scan");
    }
    manager.update_task(id, "scan", "running", Some("Scan complete"), count as i64, count as i64);
}

/// A scan ends: the task finishes as `completed`, or as `failed` with `Reconciliation failed`,
/// and the scanning flag is lowered.
pub fn end_scan(manager: &mut StateManager, succeeded: bool) -> (ev: TaskFinished)
    ensures
        !final(manager).transient.is_scanning,
        final(manager).transient.active_tasks@ == old(manager).transient.active_tasks@.remove(
            scan_task_id(),
        ),
        final(manager).spec_dirty(),
        final(manager).spec_config() == old(manager).spec_config(),
        final(manager).transient.ai == old(manager).transient.ai,
        ev.id@ == scan_task_id(),
        ev.status@ == if succeeded {
            "completed"@
        } else {
            "failed"@
        },
        opt_text(ev.message) == finish_message_spec(
            if succeeded {
                None
            } else {
                Some("Reconciliation failed"@)
            },
            if old(manager).transient.active_tasks@.contains_key(scan_task_id()) {
                Some(old(manager).transient.active_tasks@[scan_task_id()])
            } else {
                None
            },
        ),
{
    let id = "workspace-scan";
    proof {
        reveal_strlit("workspace-scan");
    }
    let ev = if succeeded {
        manager.finish_task(id, "completed", None)
    } else {
        manager.finish_task(id, "failed", Some("Reconciliation failed"))
    };
    manager.set_scanning(false);
    ev
}

} // verus!
