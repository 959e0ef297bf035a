//! What the task service promises across its operations: a task that was
//! added is found again, adding keeps the tasks two levels deep, a deleted
//! task is gone with its subtasks, a finished task moves to the archive, a
//! reopened one comes back, and finishing then reopening a task returns it.

use vstd::prelude::*;

use crate::model::task::{status_from_text, Status, TaskView};
use crate::config::settings::Settings;
use crate::model::recurrence::RecurrenceView;
use crate::model::task::{created_by_text, priority_text, CreatedBy, Priority, Task};
use crate::model::recurrence::recurrence_from_text;
use crate::service::task_service::{
    action_outcome, add_outcome, delete_outcome, edit_outcome, finished, BatchActionView, lookup, status_outcome, status_update,
    with_generated, DeleteResult, Lookup, StatusChangeResult,
};
use crate::error::AppError;
use crate::store::json_store::{id_matches_prefix, with_prefix};
use crate::store::seqs::{children_of, has_id, ids_of, lemma_ids_of_contains, lemma_ids_of_member, lemma_keep_complete, lemma_keep_concat, lemma_keep_members, lemma_pos_of, lemma_remove_id_unique, lemma_remove_ids_unique, pos_of, remove_id, remove_ids, replace_id, unique_ids};

verus! {

/// A task added after the active tasks is what a lookup of a prefix of its
/// identifier (of at least four characters) finds, when no other active task's
/// identifier starts with that prefix.
pub proof fn law_added_task_found(active: Seq<TaskView>, t: TaskView, prefix: Seq<char>)
    requires
        prefix.len() >= 4,
        id_matches_prefix(t, prefix),
        with_prefix(active, prefix).len() == 0,
    ensures
        lookup(active.push(t), prefix) == Lookup::Found(t),
{
    assert(active.push(t).drop_last() =~= active);
    assert(with_prefix(active.push(t), prefix) =~= seq![t]);
}

proof fn lemma_same_id_same_task(s: Seq<TaskView>, x: TaskView, y: TaskView)
    requires
        unique_ids(s),
        s.contains(x),
        s.contains(y),
        x.id == y.id,
    ensures
        x == y,
{
    let i = choose|i: int| 0 <= i < s.len() && s[i] == x;
    let j = choose|j: int| 0 <= j < s.len() && s[j] == y;
    if i < j {
        assert(s[i].id != s[j].id);
    } else if j < i {
        assert(s[j].id != s[i].id);
    }
}

proof fn lemma_has_id_contains(s: Seq<TaskView>, id: crate::model::task::TaskId)
    ensures
        has_id(s, id) <==> exists|x: TaskView| s.contains(x) && x.id == id,
{
    if has_id(s, id) {
        let k = choose|k: int| 0 <= k < s.len() && (#[trigger] s[k]).id == id;
        assert(s.contains(s[k]));
    }
    if exists|x: TaskView| s.contains(x) && x.id == id {
        let x = choose|x: TaskView| s.contains(x) && x.id == id;
        let k = choose|k: int| 0 <= k < s.len() && s[k] == x;
        assert(s[k].id == id);
    }
}

/// The tasks left after moving out the task of `id` and its subtasks from
/// tasks with distinct identifiers: exactly the others.
proof fn lemma_moved_out(s: Seq<TaskView>, id: crate::model::task::TaskId)
    requires
        unique_ids(s),
    ensures
        forall|x: TaskView| #[trigger]
            remove_ids(remove_id(s, id), ids_of(children_of(s, id))).contains(x) <==> (s.contains(
                x,
            ) && x.id != id && x.parent_id != Some(id)),
        !has_id(remove_ids(remove_id(s, id), ids_of(children_of(s, id))), id),
{
    let kids = children_of(s, id);
    let p = |t: TaskView| t.parent_id == Some(id);
    lemma_remove_id_unique(s, id);
    lemma_remove_ids_unique(remove_id(s, id), ids_of(kids));
    lemma_keep_members(s, p);
    let r = remove_ids(remove_id(s, id), ids_of(kids));
    assert forall|x: TaskView| #[trigger] r.contains(x) <==> (s.contains(x) && x.id != id
        && x.parent_id != Some(id)) by {
        if s.contains(x) && x.parent_id == Some(id) {
            lemma_keep_complete(s, p, x);
            lemma_ids_of_contains(kids, x);
        }
        if s.contains(x) && ids_of(kids).contains(x.id) {
            lemma_ids_of_member(kids, x.id);
            let c = choose|c: TaskView| kids.contains(c) && c.id == x.id;
            let k = choose|k: int| 0 <= k < kids.len() && kids[k] == c;
            assert(p(kids[k]));
            lemma_same_id_same_task(s, x, c);
        }
    }
    lemma_has_id_contains(r, id);
}

/// Deleting the task that a prefix names, among active tasks with distinct
/// identifiers, removes it and its subtasks and keeps every other task; a
/// failed lookup changes nothing.
pub proof fn law_delete_removes_task_and_subtasks(
    active: Seq<TaskView>,
    after: Seq<TaskView>,
    prefix: Seq<char>,
    r: Result<DeleteResult, AppError>,
)
    requires
        unique_ids(active),
        delete_outcome(active, after, prefix, r),
    ensures
        match lookup(active, prefix) {
            Lookup::Found(t) => !has_id(after, t.id) && forall|x: TaskView| #[trigger]
                after.contains(x) <==> (active.contains(x) && x.id != t.id && x.parent_id != Some(
                    t.id,
                )),
            _ => after == active,
        },
{
    match lookup(active, prefix) {
        Lookup::Found(t) => {
            let kids = children_of(active, t.id);
            assert(after == remove_id(remove_ids(active, ids_of(kids)), t.id));
            lemma_remove_ids_unique(active, ids_of(kids));
            lemma_remove_id_unique(remove_ids(active, ids_of(kids)), t.id);
            let p = |x: TaskView| x.parent_id == Some(t.id);
            assert forall|x: TaskView| #[trigger] after.contains(x) <==> (active.contains(x) && x.id
                != t.id && x.parent_id != Some(t.id)) by {
                if active.contains(x) && x.parent_id == Some(t.id) {
                    lemma_keep_complete(active, p, x);
                    lemma_ids_of_contains(kids, x);
                }
                if active.contains(x) && ids_of(kids).contains(x.id) {
                    lemma_ids_of_member(kids, x.id);
                    lemma_keep_members(active, p);
                    let c = choose|c: TaskView| kids.contains(c) && c.id == x.id;
                    let k = choose|k: int| 0 <= k < kids.len() && kids[k] == c;
                    assert(p(kids[k]));
                    lemma_same_id_same_task(active, x, c);
                }
            }
            lemma_has_id_contains(after, t.id);
        },
        _ => {},
    }
}

/// Replacing a task by one of the same identifier keeps the identifiers
/// distinct and the set of identifiers unchanged.
proof fn lemma_replace_id_unique(s: Seq<TaskView>, u: TaskView)
    requires
        unique_ids(s),
    ensures
        unique_ids(replace_id(s, u)),
        forall|id: crate::model::task::TaskId| #[trigger]
            has_id(replace_id(s, u), id) <==> has_id(s, id),
{
    lemma_pos_of(s, u.id);
    let r = replace_id(s, u);
    if has_id(s, u.id) {
        let p = pos_of(s, u.id);
        assert forall|i: int, j: int| 0 <= i < j < r.len() implies (#[trigger] r[i]).id != (
        #[trigger] r[j]).id by {
            assert(s[i].id != s[j].id);
            assert(r[i].id == s[i].id && r[j].id == s[j].id);
        }
        assert forall|id: crate::model::task::TaskId| #[trigger] has_id(r, id) <==> has_id(s, id) by {
            if has_id(r, id) {
                let k = choose|k: int| 0 <= k < r.len() && (#[trigger] r[k]).id == id;
                assert(s[k].id == id);
            }
            if has_id(s, id) {
                let k = choose|k: int| 0 <= k < s.len() && (#[trigger] s[k]).id == id;
                assert(r[k].id == id);
            }
        }
    }
}

/// Finishing (done or cancelled) an active task that a prefix names moves
/// it to the archive. Where the active tasks have distinct identifiers and
/// the next occurrence of a recurring task gets a new identifier, neither
/// the task nor any of its subtasks is still active.
pub proof fn law_finished_task_archived(
    active: Seq<TaskView>,
    archive: Seq<TaskView>,
    active_after: Seq<TaskView>,
    archive_after: Seq<TaskView>,
    prefix: Seq<char>,
    status: Seq<char>,
    r: Result<StatusChangeResult, AppError>,
)
    requires
        status_outcome(active, archive, active_after, archive_after, prefix, status, r),
        status_from_text(status) matches Some(new) && finished(new),
        lookup(active, prefix) is Found,
    ensures
        r matches Ok(res) && res.archived && archive_after.contains(res.task@)
            && res.task@.id == lookup(active, prefix)->Found_0.id,
        unique_ids(active) && (r matches Ok(res) && (res.generated_task matches Some(g) ==> !has_id(
            active,
            g@.id,
        ))) ==> !has_id(active_after, lookup(active, prefix)->Found_0.id) && forall|x: TaskView|
            #[trigger] active_after.contains(x) ==> x.parent_id != Some(
                lookup(active, prefix)->Found_0.id,
            ),
{
    let t = lookup(active, prefix)->Found_0;
    let res = r->Ok_0;
    let u = res.task@;
    let a2 = with_generated(replace_id(active, u), res.generated_task);
    assert(archive_after == archive.push(u) + children_of(a2, u.id));
    assert(archive_after[archive.len() as int] == u);
    if unique_ids(active) && (res.generated_task matches Some(g) ==> !has_id(active, g@.id)) {
        lemma_replace_id_unique(active, u);
        let a1 = replace_id(active, u);
        if let Some(g) = res.generated_task {
            assert forall|i: int, j: int| 0 <= i < j < a2.len() implies (#[trigger] a2[i]).id != (
            #[trigger] a2[j]).id by {
                if j == a1.len() {
                    assert(a2[j] == g@);
                    assert(a2[i] == a1[i]);
                    if a1[i].id == g@.id {
                        assert(has_id(a1, g@.id));
                    }
                } else {
                    assert(a2[i] == a1[i] && a2[j] == a1[j]);
                }
            }
        }
        lemma_moved_out(a2, u.id);
    }
}

/// Reopening (to do or in progress) an archived task that a prefix names,
/// when no active task matches the prefix, brings it back to the active
/// tasks. Where the archived tasks have distinct identifiers, it is no
/// longer archived.
pub proof fn law_reopened_task_restored(
    active: Seq<TaskView>,
    archive: Seq<TaskView>,
    active_after: Seq<TaskView>,
    archive_after: Seq<TaskView>,
    prefix: Seq<char>,
    status: Seq<char>,
    r: Result<StatusChangeResult, AppError>,
)
    requires
        status_outcome(active, archive, active_after, archive_after, prefix, status, r),
        status_from_text(status) matches Some(new) && !finished(new),
        lookup(active, prefix) is NotFound,
        lookup(archive, prefix) is Found,
    ensures
        r matches Ok(res) && res.restored && active_after.contains(res.task@)
            && res.task@.id == lookup(archive, prefix)->Found_0.id,
        unique_ids(archive) ==> !has_id(archive_after, lookup(archive, prefix)->Found_0.id),
{
    let res = r->Ok_0;
    let u = res.task@;
    let r1 = replace_id(archive, u);
    let a1 = with_generated(active, res.generated_task);
    assert(active_after == a1.push(u) + children_of(r1, u.id));
    assert(active_after[a1.len() as int] == u);
    if unique_ids(archive) {
        lemma_replace_id_unique(archive, u);
        lemma_moved_out(r1, u.id);
    }
}

/// When no task of `s` has an identifier with the prefix, none is kept.
proof fn lemma_none_with_prefix(s: Seq<TaskView>, prefix: Seq<char>)
    requires
        forall|x: TaskView| #[trigger] s.contains(x) ==> !id_matches_prefix(x, prefix),
    ensures
        with_prefix(s, prefix).len() == 0,
{
    let p = |z: TaskView| id_matches_prefix(z, prefix);
    lemma_keep_members(s, p);
    if with_prefix(s, prefix).len() > 0 {
        assert(p(with_prefix(s, prefix)[0]));
    }
}

/// Finishing an active task and then reopening it brings it back: the
/// second change finds the task in the archive and returns it to the active
/// tasks, with its attributes kept, the new status, and no completion time
/// where it had been done. This holds where the active tasks have distinct
/// identifiers, the task is not its own parent, no archived task has an
/// identifier with the prefix, and the next occurrence of a recurring task
/// gets a new identifier that does not start with the prefix.
pub proof fn law_finish_then_reopen(
    active: Seq<TaskView>,
    archive: Seq<TaskView>,
    active1: Seq<TaskView>,
    archive1: Seq<TaskView>,
    active2: Seq<TaskView>,
    archive2: Seq<TaskView>,
    prefix: Seq<char>,
    finish: Seq<char>,
    reopen: Seq<char>,
    r1: Result<StatusChangeResult, AppError>,
    r2: Result<StatusChangeResult, AppError>,
)
    requires
        status_outcome(active, archive, active1, archive1, prefix, finish, r1),
        status_outcome(active1, archive1, active2, archive2, prefix, reopen, r2),
        status_from_text(finish) matches Some(s1) && finished(s1),
        status_from_text(reopen) matches Some(s2) && !finished(s2),
        lookup(active, prefix) is Found,
        unique_ids(active),
        lookup(active, prefix)->Found_0.parent_id != Some(lookup(active, prefix)->Found_0.id),
        with_prefix(archive, prefix).len() == 0,
        r1 matches Ok(x) ==> (x.generated_task matches Some(g) ==> !has_id(active, g@.id)
            && !id_matches_prefix(g@, prefix)),
    ensures
        r1 matches Ok(x) && x.archived && status_update(
            lookup(active, prefix)->Found_0,
            x.task@,
            status_from_text(finish)->Some_0,
        ),
        r2 matches Ok(y) && y.restored && active2.contains(y.task@) && status_update(
            r1->Ok_0.task@,
            y.task@,
            status_from_text(reopen)->Some_0,
        ),
        status_from_text(finish) == Some(Status::Done) ==> r2->Ok_0.task@.completed_at is None,
{
    let t = lookup(active, prefix)->Found_0;
    let res = r1->Ok_0;
    let u = res.task@;
    let a1 = replace_id(active, u);
    let a2 = with_generated(a1, res.generated_task);
    let p = |z: TaskView| id_matches_prefix(z, prefix);
    assert(active1 == remove_ids(remove_id(a2, u.id), ids_of(children_of(a2, u.id))));
    assert(archive1 == archive.push(u) + children_of(a2, u.id));
    // The task is the only active one with the prefix.
    lemma_keep_members(active, p);
    assert(with_prefix(active, prefix).len() == 1 && with_prefix(active, prefix)[0] == t);
    assert(p(t) && active.contains(t));
    // The identifiers stay distinct once the task is replaced and the next
    // occurrence appended.
    lemma_replace_id_unique(active, u);
    lemma_pos_of(active, u.id);
    assert(has_id(active, u.id)) by {
        let k = choose|k: int| 0 <= k < active.len() && active[k] == t;
        assert(active[k].id == u.id);
    }
    let pos = pos_of(active, u.id);
    assert(a1[pos] == u);
    if let Some(g) = res.generated_task {
        assert forall|i: int, j: int| 0 <= i < j < a2.len() implies (#[trigger] a2[i]).id != (
        #[trigger] a2[j]).id by {
            if j == a1.len() {
                assert(a2[j] == g@);
                assert(a2[i] == a1[i]);
                if a1[i].id == g@.id {
                    assert(has_id(a1, g@.id));
                }
            } else {
                assert(a2[i] == a1[i] && a2[j] == a1[j]);
            }
        }
    }
    assert(unique_ids(a2));
    assert(a2.contains(u)) by {
        assert(a2[pos] == u);
    }
    // Every task of `a2` with the prefix is the finished task.
    assert forall|z: TaskView| a2.contains(z) && #[trigger] p(z) implies z == u by {
        let k = choose|k: int| 0 <= k < a2.len() && a2[k] == z;
        if k < a1.len() {
            assert(a2[k] == a1[k]);
            if k != pos {
                assert(a1[k] == active[k]);
                lemma_keep_complete(active, p, z);
                let j = choose|j: int| 0 <= j < with_prefix(active, prefix).len() && with_prefix(active, prefix)[j] == z;
                assert(z == t);
                lemma_same_id_same_task(a2, z, u);
            }
        }
    }
    // No active task has the prefix any more.
    lemma_moved_out(a2, u.id);
    assert forall|z: TaskView| #[trigger] active1.contains(z) implies !id_matches_prefix(z, prefix) by {
        if p(z) {
            assert(a2.contains(z));
        }
    }
    lemma_none_with_prefix(active1, prefix);
    assert(lookup(active1, prefix) == Lookup::NotFound);
    // In the archive, the prefix names the finished task alone.
    let kids = children_of(a2, u.id);
    let q = |z: TaskView| z.parent_id == Some(u.id);
    lemma_keep_members(a2, q);
    assert forall|z: TaskView| #[trigger] kids.contains(z) implies !id_matches_prefix(z, prefix) by {
        let k = choose|k: int| 0 <= k < kids.len() && kids[k] == z;
        assert(q(kids[k]) && a2.contains(kids[k]));
        if p(z) {
            assert(z == u);
        }
    }
    lemma_none_with_prefix(kids, prefix);
    lemma_keep_concat(archive.push(u), kids, p);
    assert(archive.push(u).drop_last() =~= archive);
    assert(with_prefix(archive, prefix) =~= Seq::<TaskView>::empty());
    assert(with_prefix(archive.push(u), prefix) =~= seq![u]);
    assert(with_prefix(kids, prefix) =~= Seq::<TaskView>::empty());
    assert(with_prefix(archive1, prefix) =~= seq![u]);
    assert(lookup(archive1, prefix) == Lookup::Found(u));
    // The second change restores it.
    let res2 = r2->Ok_0;
    let v = res2.task@;
    let b1 = with_generated(active1, res2.generated_task);
    assert(active2 == b1.push(v) + children_of(replace_id(archive1, v), v.id));
    assert(active2[b1.len() as int] == v);
}

/// No task is more than one level below a root: a task whose parent is
/// among `s` has a root task as its parent.
pub open spec fn two_levels(s: Seq<TaskView>) -> bool {
    forall|i: int, j: int|
        0 <= i < s.len() && 0 <= j < s.len() && (#[trigger] s[i]).parent_id == Some(
            (#[trigger] s[j]).id,
        ) ==> s[j].parent_id is None
}

/// Adding a task keeps the tasks two levels deep: a subtask is only added
/// under a root task. This holds where the active tasks have distinct
/// identifiers and the new task's identifier is fresh: no active task has
/// it, or names it as its parent.
pub proof fn law_add_keeps_two_levels(
    cfg: Settings,
    active: Seq<TaskView>,
    after: Seq<TaskView>,
    title: Seq<char>,
    content: Option<Seq<char>>,
    priority: Priority,
    created_by: CreatedBy,
    label: Option<Seq<char>>,
    project: Option<Seq<char>>,
    parent: Option<Seq<char>>,
    recurrence: RecurrenceView,
    r: Result<Task, AppError>,
)
    requires
        add_outcome(
            cfg,
            active,
            after,
            title,
            content,
            priority,
            created_by,
            label,
            project,
            parent,
            recurrence,
            r,
        ),
        two_levels(active),
        unique_ids(active),
        r matches Ok(t) ==> !has_id(active, t@.id) && forall|i: int|
            0 <= i < active.len() ==> (#[trigger] active[i]).parent_id != Some(t@.id),
    ensures
        two_levels(after),
{
    if let Ok(t) = r {
        let n = t@;
        assert(after == active.push(n));
        // The new task is a root, or the child of an active root.
        let root_parent: Option<TaskView> = match parent {
            Some(pp) => match lookup(active, pp) {
                Lookup::Found(p) => Some(p),
                _ => None,
            },
            None => None,
        };
        if let Some(p) = root_parent {
            let pp = parent->Some_0;
            let q = |z: TaskView| id_matches_prefix(z, pp);
            lemma_keep_members(active, q);
            assert(active.contains(with_prefix(active, pp)[0]));
        }
        assert(n.parent_id is None || (root_parent matches Some(p) && n.parent_id == Some(p.id)
            && p.parent_id is None && active.contains(p)));
        assert forall|i: int, j: int|
            0 <= i < after.len() && 0 <= j < after.len() && (#[trigger] after[i]).parent_id == Some(
                (#[trigger] after[j]).id,
            ) implies after[j].parent_id is None by {
            if i < active.len() && j < active.len() {
                assert(after[i] == active[i] && after[j] == active[j]);
            } else if j < active.len() {
                assert(after[i] == n && after[j] == active[j]);
                let p = root_parent->Some_0;
                let k = choose|k: int| 0 <= k < active.len() && active[k] == p;
                if k != j {
                    if k < j {
                        assert(active[k].id != active[j].id);
                    } else {
                        assert(active[j].id != active[k].id);
                    }
                }
            } else if i < active.len() {
                assert(after[i] == active[i] && after[j] == n);
            } else {
                assert(after[i] == n && after[j] == n);
                if n.parent_id is Some {
                    let p = root_parent->Some_0;
                    let k = choose|k: int| 0 <= k < active.len() && active[k] == p;
                    assert(active[k].id == n.id);
                }
            }
        }
    }
}

/// Editing a task keeps the tasks two levels deep: a new parent must be an
/// active root other than the task itself, and a task with subtasks gets
/// none. This holds where the active tasks have distinct identifiers.
pub proof fn law_edit_keeps_two_levels(
    cfg: Settings,
    active: Seq<TaskView>,
    after: Seq<TaskView>,
    prefix: Seq<char>,
    title: Option<Seq<char>>,
    content: Option<Seq<char>>,
    priority: Option<Priority>,
    label: Option<Seq<char>>,
    project: Option<Seq<char>>,
    parent: Option<Seq<char>>,
    recurrence: Option<RecurrenceView>,
    r: Result<Task, AppError>,
)
    requires
        edit_outcome(
            cfg,
            active,
            after,
            prefix,
            title,
            content,
            priority,
            label,
            project,
            parent,
            recurrence,
            r,
        ),
        two_levels(active),
        unique_ids(active),
    ensures
        two_levels(after),
{
    if let Ok(uu) = r {
        let t = lookup(active, prefix)->Found_0;
        let u = uu@;
        let pid = prefix;
        // The edited task was found among the active tasks.
        let q = |z: TaskView| id_matches_prefix(z, pid);
        lemma_keep_members(active, q);
        assert(active.contains(t));
        assert(u.id == t.id);
        lemma_pos_of(active, t.id);
        assert(has_id(active, t.id)) by {
            let k = choose|k: int| 0 <= k < active.len() && active[k] == t;
            assert(active[k].id == t.id);
        }
        let pos = pos_of(active, t.id);
        assert(active[pos] == t) by {
            let k = choose|k: int| 0 <= k < active.len() && active[k] == t;
            if k != pos {
                if k < pos {
                    assert(active[k].id != active[pos].id);
                } else {
                    assert(active[pos].id != active[k].id);
                }
            }
        }
        assert(after == active.update(pos, u));
        // Where the parent changed to a task, that task is an active root
        // other than `t`, and `t` had no subtasks.
        let new_parent: Option<TaskView> = match parent {
            Some(ps) => if ps == "none"@ {
                None
            } else {
                match lookup(active, ps) {
                    Lookup::Found(p) => Some(p),
                    _ => None,
                }
            },
            None => None,
        };
        if let Some(p) = new_parent {
            let ps = parent->Some_0;
            let q2 = |z: TaskView| id_matches_prefix(z, ps);
            lemma_keep_members(active, q2);
            assert(active.contains(with_prefix(active, ps)[0]));
        }
        assert(u.parent_id == t.parent_id || u.parent_id is None || (new_parent matches Some(p)
            && u.parent_id == Some(p.id) && p.parent_id is None && p.id != t.id
            && children_of(active, t.id).len() == 0 && active.contains(p)));
        let kid = |z: TaskView| z.parent_id == Some(t.id);
        assert forall|i: int, j: int|
            0 <= i < after.len() && 0 <= j < after.len() && (#[trigger] after[i]).parent_id == Some(
                (#[trigger] after[j]).id,
            ) implies after[j].parent_id is None by {
            if i != pos && j != pos {
                assert(after[i] == active[i] && after[j] == active[j]);
            } else if i == pos && j != pos {
                assert(after[j] == active[j]);
                if u.parent_id == t.parent_id {
                    assert(active[pos].parent_id == Some(active[j].id));
                } else if u.parent_id is Some {
                    let p = new_parent->Some_0;
                    let k = choose|k: int| 0 <= k < active.len() && active[k] == p;
                    if k != j {
                        if k < j {
                            assert(active[k].id != active[j].id);
                        } else {
                            assert(active[j].id != active[k].id);
                        }
                    }
                }
            } else if i != pos && j == pos {
                assert(after[i] == active[i] && after[j] == u);
                if u.parent_id == t.parent_id {
                    assert(active[i].parent_id == Some(active[pos].id));
                } else if u.parent_id is Some {
                    assert(kid(active[i]));
                    lemma_keep_complete(active, kid, active[i]);
                }
            } else {
                assert(after[i] == u && after[j] == u);
                if u.parent_id == t.parent_id {
                    assert(active[pos].parent_id == Some(active[pos].id));
                }
            }
        }
    }
}


/// A batch `add` that succeeds creates the task that its fields describe:
/// the new to-do task, appended to the active tasks with the archive left
/// alone, has the action's title, description and label, the action's
/// project (or, when the action names none, its parent's), the priority and
/// creator the action names (none and human when it names none), and the
/// recurrence its text parses to (`never` when it gives none).
pub proof fn law_batch_add_uses_fields(
    cfg: Settings,
    a0: Seq<TaskView>,
    r0: Seq<TaskView>,
    a1: Seq<TaskView>,
    r1: Seq<TaskView>,
    act: BatchActionView,
    r: Result<Task, AppError>,
)
    requires
        action_outcome(cfg, a0, r0, a1, r1, act, r),
        act.action == Some("add"@),
        r is Ok,
    ensures
        r1 == r0,
        a1 == a0.push(r->Ok_0@),
        act.title == Some(r->Ok_0@.title),
        r->Ok_0@.status == Status::Todo,
        r->Ok_0@.content == act.description,
        r->Ok_0@.label == act.label,
        act.project is Some ==> r->Ok_0@.project == act.project,
        act.parent_id is None ==> r->Ok_0@.project == act.project && r->Ok_0@.parent_id is None,
        act.parent_id matches Some(pp) ==> (lookup(a0, pp) matches Lookup::Found(p) && r->Ok_0@.parent_id
            == Some(p.id) && (act.project is None ==> r->Ok_0@.project == p.project)),
        act.priority matches Some(p) ==> priority_text(r->Ok_0@.priority) == p,
        act.priority is None ==> r->Ok_0@.priority == Priority::Unset,
        act.created_by matches Some(c) ==> created_by_text(r->Ok_0@.created_by) == c,
        act.created_by is None ==> r->Ok_0@.created_by == CreatedBy::Human,
        act.recurrence matches Some(x) ==> recurrence_from_text(x) == Ok::<RecurrenceView, Seq<char>>(
            r->Ok_0@.recurrence,
        ),
        act.recurrence is None ==> recurrence_from_text("never"@) == Ok::<RecurrenceView, Seq<char>>(
            r->Ok_0@.recurrence,
        ),
{
    reveal(action_outcome);
}

} // verus!
