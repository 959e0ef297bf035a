//! The task service: the operations on tasks, over the active task store and
//! the archive, which holds finished tasks.

use vstd::prelude::*;

use crate::config::settings::{add_missing, contains_string, texts_view, Settings};
use crate::error::{error_text, AppError};
use crate::model::filter::TaskFilter;
use crate::model::order::SortKey;
use crate::model::recurrence::{recurrence_from_text, Recurrence, RecurrenceView};
use crate::model::stats::Stats;
use crate::model::tree::{tree_sort, tree_sorted};
use crate::model::task::{priority_from_text, invalid_value_text, status_from_text, copy_opt_text, new_task_id, now_time, opt_view, tasks_view, CreatedBy, Priority, Status, Task, TaskId, TaskView};
use crate::store::json_store::{selected, stats_correct, tally_total, with_prefix, JsonStore};
use crate::store::schema::TaskData;
use crate::store::seqs::{
    children_of, has_id, ids_of, keep, lemma_keep_all, lemma_keep_step, lemma_pos_of, remove_id,
    remove_ids, replace_id,
};
use crate::text::{chars_of, concat, contains_text, lowercase, lowercase_text, occurs_in, owned, same_text};

verus! {

/// Result of a status change.
#[derive(Debug)]
pub struct StatusChangeResult {
    /// The task after the change.
    pub task: Task,
    /// The next occurrence of a recurring task that was completed.
    pub generated_task: Option<Task>,
    /// The task was moved to the archive, with its subtasks.
    pub archived: bool,
    pub archived_subtasks: usize,
    /// The task was moved back from the archive, with its subtasks.
    pub restored: bool,
    pub restored_subtasks: usize,
}

/// Result of a deletion.
#[derive(Debug)]
pub struct DeleteResult {
    pub task: Task,
    pub deleted_subtasks: usize,
}

/// One action of a batch, as its fields were read: each field is present
/// when the action had it as a string.
#[derive(Debug, Clone)]
pub struct BatchAction {
    pub action: Option<String>,
    pub id: Option<String>,
    pub title: Option<String>,
    pub description: Option<String>,
    pub priority: Option<String>,
    pub created_by: Option<String>,
    pub label: Option<String>,
    pub project: Option<String>,
    pub parent_id: Option<String>,
    pub parent: Option<String>,
    pub recurrence: Option<String>,
    pub status: Option<String>,
}

/// Mathematical model of a batch action.
pub struct BatchActionView {
    pub action: Option<Seq<char>>,
    pub id: Option<Seq<char>>,
    pub title: Option<Seq<char>>,
    pub description: Option<Seq<char>>,
    pub priority: Option<Seq<char>>,
    pub created_by: Option<Seq<char>>,
    pub label: Option<Seq<char>>,
    pub project: Option<Seq<char>>,
    pub parent_id: Option<Seq<char>>,
    pub parent: Option<Seq<char>>,
    pub recurrence: Option<Seq<char>>,
    pub status: Option<Seq<char>>,
}

impl View for BatchAction {
    type V = BatchActionView;

    open spec fn view(&self) -> BatchActionView {
        BatchActionView {
            action: opt_view(self.action),
            id: opt_view(self.id),
            title: opt_view(self.title),
            description: opt_view(self.description),
            priority: opt_view(self.priority),
            created_by: opt_view(self.created_by),
            label: opt_view(self.label),
            project: opt_view(self.project),
            parent_id: opt_view(self.parent_id),
            parent: opt_view(self.parent),
            recurrence: opt_view(self.recurrence),
            status: opt_view(self.status),
        }
    }
}

/// Result of one action of a batch.
#[derive(Debug)]
pub struct BatchActionResult {
    pub success: bool,
    pub task: Option<Task>,
    pub error: Option<String>,
}

/// Counts of a batch.
#[derive(Debug)]
pub struct BatchSummary {
    pub total: usize,
    pub succeeded: usize,
    pub failed: usize,
}

/// Result of a batch.
#[derive(Debug)]
pub struct BatchResult {
    pub summary: BatchSummary,
    pub results: Vec<BatchActionResult>,
}

/// What looking a task up by identifier prefix finds.
pub enum Lookup {
    TooShort,
    NotFound,
    Ambiguous(nat),
    Found(TaskView),
}

/// Looking up `prefix` in `s`: prefixes under 4 characters are refused; otherwise
/// exactly one task must have an identifier that starts with it.
pub open spec fn lookup(s: Seq<TaskView>, prefix: Seq<char>) -> Lookup {
    if prefix.len() < 4 {
        Lookup::TooShort
    } else {
        let m = with_prefix(s, prefix);
        if m.len() == 0 {
            Lookup::NotFound
        } else if m.len() == 1 {
            Lookup::Found(m[0])
        } else {
            Lookup::Ambiguous(m.len())
        }
    }
}

/// `r` is the outcome of lookup `l` of `prefix`.
pub open spec fn lookup_result(r: Result<Task, AppError>, l: Lookup, prefix: Seq<char>) -> bool {
    match l {
        Lookup::TooShort => r matches Err(AppError::IdPrefixTooShort(p)) && p@ == prefix,
        Lookup::NotFound => r matches Err(AppError::TaskNotFound(p)) && p@ == prefix,
        Lookup::Ambiguous(n) => r matches Err(AppError::AmbiguousId { prefix: p, count })
            && p@ == prefix && count == n,
        Lookup::Found(t) => r matches Ok(x) && x@ == t,
    }
}

/// The search query occurs in the task's title or content, ignoring case.
pub open spec fn search_matches(t: TaskView, query: Seq<char>) -> bool {
    occurs_in(lowercase_text(query), lowercase_text(t.title)) || (t.content matches Some(c)
        && occurs_in(lowercase_text(query), lowercase_text(c)))
}

/// The tasks of `s` that the query matches, in order.
pub open spec fn searched(s: Seq<TaskView>, query: Seq<char>) -> Seq<TaskView> {
    keep(s, |t: TaskView| search_matches(t, query))
}

/// Tree order of `s`: the roots by creation time, each followed by its
/// children by creation time, then the subtasks whose parent is not there.
pub open spec fn tree_order(s: Seq<TaskView>) -> Seq<TaskView> {
    tree_sorted(s, SortKey::CreatedAt, false)
}

/// The label is one of the allowed labels.
pub open spec fn label_allowed(settings: Settings, label: Seq<char>) -> bool {
    add_missing(texts_view(settings.builtin_labels@), texts_view(settings.extra_labels@)).contains(
        label,
    )
}

/// `t` is a new task with the given attributes: to do, not completed,
/// created and updated at the same time.
pub open spec fn is_new_task(
    t: TaskView,
    title: Seq<char>,
    content: Option<Seq<char>>,
    priority: Priority,
    created_by: CreatedBy,
    label: Option<Seq<char>>,
    project: Option<Seq<char>>,
    parent_id: Option<TaskId>,
    recurrence: RecurrenceView,
) -> bool {
    &&& t.title == title
    &&& t.content == content
    &&& t.status == Status::Todo
    &&& t.priority == priority
    &&& t.created_by == created_by
    &&& t.label == label
    &&& t.project == project
    &&& t.parent_id == parent_id
    &&& t.recurrence == recurrence
    &&& t.created_at == t.updated_at
    &&& t.completed_at is None
}

/// `u` is `t` with its status set to `new`: completed when done, no longer
/// completed when it leaves done; its update time is renewed.
pub open spec fn status_update(t: TaskView, u: TaskView, new: Status) -> bool {
    &&& u.id == t.id
    &&& u.title == t.title
    &&& u.content == t.content
    &&& u.status == new
    &&& u.priority == t.priority
    &&& u.created_by == t.created_by
    &&& u.label == t.label
    &&& u.project == t.project
    &&& u.parent_id == t.parent_id
    &&& u.recurrence == t.recurrence
    &&& u.created_at == t.created_at
    &&& (if new == Status::Done {
        u.completed_at is Some
    } else if t.status == Status::Done {
        u.completed_at is None
    } else {
        u.completed_at == t.completed_at
    })
}

/// `g` is the next occurrence of the recurring task `u`: a new root task with
/// its attributes.
pub open spec fn next_occurrence(u: TaskView, g: TaskView) -> bool {
    is_new_task(
        g,
        u.title,
        u.content,
        u.priority,
        u.created_by,
        u.label,
        u.project,
        None,
        u.recurrence,
    )
}

/// `from` after moving out the task of identifier `id` and its children.
pub open spec fn moved_out(from: Seq<TaskView>, id: TaskId) -> Seq<TaskView> {
    remove_ids(remove_id(from, id), ids_of(children_of(from, id)))
}

/// `to` after moving in task `t` and its children in `from`.
pub open spec fn moved_in(to: Seq<TaskView>, from: Seq<TaskView>, t: TaskView) -> Seq<TaskView> {
    to.push(t) + children_of(from, t.id)
}

/// `u` is `t` edited: each given attribute replaces the old one, the parent
/// becomes `parent`, and the update time is renewed.
pub open spec fn edited(
    t: TaskView,
    u: TaskView,
    title: Option<Seq<char>>,
    content: Option<Seq<char>>,
    priority: Option<Priority>,
    label: Option<Seq<char>>,
    project: Option<Seq<char>>,
    parent: Option<TaskId>,
    recurrence: Option<RecurrenceView>,
) -> bool {
    &&& u.id == t.id
    &&& u.title == (match title {
        Some(x) => x,
        None => t.title,
    })
    &&& u.content == (if content is Some {
        content
    } else {
        t.content
    })
    &&& u.status == t.status
    &&& u.priority == (match priority {
        Some(p) => p,
        None => t.priority,
    })
    &&& u.created_by == t.created_by
    &&& u.label == (if label is Some {
        label
    } else {
        t.label
    })
    &&& u.project == (if project is Some {
        project
    } else {
        t.project
    })
    &&& u.parent_id == parent
    &&& u.recurrence == (match recurrence {
        Some(r) => r,
        None => t.recurrence,
    })
    &&& u.created_at == t.created_at
    &&& u.completed_at == t.completed_at
}

/// Model of an optional recurrence.
pub open spec fn opt_recurrence(r: Option<Recurrence>) -> Option<RecurrenceView> {
    match r {
        Some(x) => Some(x@),
        None => None,
    }
}

/// A next occurrence exists exactly when a recurring task is completed.
pub open spec fn generation_ok(u: TaskView, new: Status, generated: Option<Task>) -> bool {
    &&& (generated is Some <==> (new == Status::Done && !(u.recurrence is Never)))
    &&& (generated matches Some(g) ==> next_occurrence(u, g@))
}

/// `active` with the generated occurrence, if any, appended.
pub open spec fn with_generated(active: Seq<TaskView>, generated: Option<Task>) -> Seq<TaskView> {
    match generated {
        Some(g) => active.push(g@),
        None => active,
    }
}

/// Effects of a status change of the active task that became `res.task`;
/// with `archive` set, a task that became done or cancelled moves to the
/// archive with its subtasks, otherwise it stays where it is.
pub open spec fn active_change_with(
    archive: bool,
    old_active: Seq<TaskView>,
    old_archive: Seq<TaskView>,
    new_active: Seq<TaskView>,
    new_archive: Seq<TaskView>,
    res: StatusChangeResult,
    new: Status,
) -> bool {
    let u = res.task@;
    let a2 = with_generated(replace_id(old_active, u), res.generated_task);
    let moves = archive && finished(new);
    &&& generation_ok(u, new, res.generated_task)
    &&& !res.restored && res.restored_subtasks == 0
    &&& res.archived == moves
    &&& (moves ==> res.archived_subtasks == children_of(a2, u.id).len() && new_active
        == moved_out(a2, u.id) && new_archive == moved_in(old_archive, a2, u))
    &&& (!moves ==> res.archived_subtasks == 0 && new_active == a2 && new_archive
        == old_archive)
}

/// Effects of a status change of the active task that became `res.task`,
/// finished tasks moving to the archive.
pub open spec fn active_change(
    old_active: Seq<TaskView>,
    old_archive: Seq<TaskView>,
    new_active: Seq<TaskView>,
    new_archive: Seq<TaskView>,
    res: StatusChangeResult,
    new: Status,
) -> bool {
    active_change_with(true, old_active, old_archive, new_active, new_archive, res, new)
}

/// Effects of a status change of the archived task that became `res.task`.
pub open spec fn archive_change(
    old_active: Seq<TaskView>,
    old_archive: Seq<TaskView>,
    new_active: Seq<TaskView>,
    new_archive: Seq<TaskView>,
    res: StatusChangeResult,
    new: Status,
) -> bool {
    let u = res.task@;
    let r1 = replace_id(old_archive, u);
    let a1 = with_generated(old_active, res.generated_task);
    &&& generation_ok(u, new, res.generated_task)
    &&& !res.archived && res.archived_subtasks == 0
    &&& res.restored == !finished(new)
    &&& (!finished(new) ==> res.restored_subtasks == children_of(r1, u.id).len() && new_archive
        == moved_out(r1, u.id) && new_active == moved_in(a1, r1, u))
    &&& (finished(new) ==> res.restored_subtasks == 0 && new_archive == r1 && new_active == a1)
}

/// Status is done or cancelled.
pub open spec fn finished(s: Status) -> bool {
    s == Status::Done || s == Status::Cancelled
}

/// Outcome of adding a task; `a0` and `a1` are the active tasks before and after.
pub open spec fn add_outcome(
    cfg: Settings,
    a0: Seq<TaskView>,
    a1: Seq<TaskView>,
    title: Seq<char>,
    content: Option<Seq<char>>,
    priority: Priority,
    created_by: CreatedBy,
    label: Option<Seq<char>>,
    project: Option<Seq<char>>,
    parent: Option<Seq<char>>,
    recurrence: RecurrenceView,
    r: Result<Task, AppError>,
) -> bool {
    &&& (r is Err ==> a1 == a0)
    &&& (r matches Ok(t) ==> a1 == a0.push(t@))
    &&& match label {
        Some(l) => !label_allowed(cfg, l) ==> (r matches Err(AppError::InvalidLabel(m)) && m@ == l),
        None => true,
    }
    &&& ((label matches Some(l) ==> label_allowed(cfg, l)) ==> match parent {
        None => r matches Ok(t) && is_new_task(
            t@,
            title,
            content,
            priority,
            created_by,
            label,
            project,
            None,
            recurrence,
        ),
        Some(pp) => match lookup(a0, pp) {
            Lookup::Found(p) => if p.parent_id is Some {
                r matches Err(AppError::NestingTooDeep)
            } else if !(recurrence is Never) {
                r matches Err(AppError::SubtaskRecurrence)
            } else {
                r matches Ok(t) && is_new_task(
                    t@,
                    title,
                    content,
                    priority,
                    created_by,
                    label,
                    if project is Some {
                        project
                    } else {
                        p.project
                    },
                    Some(p.id),
                    recurrence,
                )
            },
            l => r is Err && (r matches Err(e) ==> lookup_result(Err::<Task, AppError>(e), l, pp)),
        },
    })
}

/// Outcome of deleting a task; `a0` and `a1` are the active tasks before and after.
pub open spec fn delete_outcome(
    a0: Seq<TaskView>,
    a1: Seq<TaskView>,
    prefix: Seq<char>,
    r: Result<DeleteResult, AppError>,
) -> bool {
    match lookup(a0, prefix) {
        Lookup::Found(t) => r matches Ok(d) && d.task@ == t && d.deleted_subtasks == children_of(
            a0,
            t.id,
        ).len() && a1 == remove_id(remove_ids(a0, ids_of(children_of(a0, t.id))), t.id),
        l => a1 == a0 && r is Err && (r matches Err(e) ==> lookup_result(
            Err::<Task, AppError>(e),
            l,
            prefix,
        )),
    }
}

/// The edit of task `t`, found by its prefix: a label must be allowed; a
/// parent `none` detaches the task, any other parent (by prefix) must be an
/// active root task other than `t`, and only a task without subtasks can be
/// given one, so that the tasks stay two levels deep.
pub open spec fn edit_applied(
    cfg: Settings,
    a0: Seq<TaskView>,
    t: TaskView,
    title: Option<Seq<char>>,
    content: Option<Seq<char>>,
    priority: Option<Priority>,
    label: Option<Seq<char>>,
    project: Option<Seq<char>>,
    parent: Option<Seq<char>>,
    recurrence: Option<RecurrenceView>,
    r: Result<Task, AppError>,
) -> bool {
    if (label matches Some(l) && !label_allowed(cfg, l)) {
        r matches Err(AppError::InvalidLabel(m)) && m@ == label->0
    } else {
        match parent {
            None => r matches Ok(u) && edited(
                t,
                u@,
                title,
                content,
                priority,
                label,
                project,
                t.parent_id,
                recurrence,
            ),
            Some(ps) => if ps == "none"@ {
                r matches Ok(u) && edited(
                    t,
                    u@,
                    title,
                    content,
                    priority,
                    label,
                    project,
                    None,
                    recurrence,
                )
            } else {
                match lookup(a0, ps) {
                    Lookup::Found(p) => if p.parent_id is Some || p.id == t.id || children_of(
                        a0,
                        t.id,
                    ).len() > 0 {
                        r matches Err(AppError::NestingTooDeep)
                    } else {
                        r matches Ok(u) && edited(
                            t,
                            u@,
                            title,
                            content,
                            priority,
                            label,
                            project,
                            Some(p.id),
                            recurrence,
                        )
                    },
                    l => r is Err && (r matches Err(e) ==> lookup_result(
                        Err::<Task, AppError>(e),
                        l,
                        ps,
                    )),
                }
            },
        }
    }
}

/// Outcome of editing an active task; `a0` and `a1` are the active tasks
/// before and after.
pub open spec fn edit_outcome(
    cfg: Settings,
    a0: Seq<TaskView>,
    a1: Seq<TaskView>,
    prefix: Seq<char>,
    title: Option<Seq<char>>,
    content: Option<Seq<char>>,
    priority: Option<Priority>,
    label: Option<Seq<char>>,
    project: Option<Seq<char>>,
    parent: Option<Seq<char>>,
    recurrence: Option<RecurrenceView>,
    r: Result<Task, AppError>,
) -> bool {
    &&& (r is Err ==> a1 == a0)
    &&& (r matches Ok(u) ==> a1 == replace_id(a0, u@))
    &&& if title is None && content is None && priority is None && label is None && project is None
        && parent is None && recurrence is None {
        r matches Err(AppError::NoEditFields)
    } else {
        match lookup(a0, prefix) {
            Lookup::Found(t) => edit_applied(
                cfg,
                a0,
                t,
                title,
                content,
                priority,
                label,
                project,
                parent,
                recurrence,
                r,
            ),
            l => r is Err && (r matches Err(e) ==> lookup_result(
                Err::<Task, AppError>(e),
                l,
                prefix,
            )),
        }
    }
}

/// Outcome of a status change; `a0`/`r0` and `a1`/`r1` are the active and
/// archived tasks before and after. With `archive` set, an active task that
/// becomes done or cancelled moves to the archive at once.
pub open spec fn status_outcome_with(
    archive: bool,
    a0: Seq<TaskView>,
    r0: Seq<TaskView>,
    a1: Seq<TaskView>,
    r1: Seq<TaskView>,
    prefix: Seq<char>,
    status: Seq<char>,
    r: Result<StatusChangeResult, AppError>,
) -> bool {
    &&& (r is Err ==> a1 == a0 && r1 == r0)
    &&& match status_from_text(status) {
        None => r matches Err(AppError::InvalidInput(m)) && m@ == invalid_value_text(
            "status"@,
            status,
        ),
        Some(new) => match lookup(a0, prefix) {
            Lookup::Found(t) => r matches Ok(res) && status_update(t, res.task@, new)
                && active_change_with(archive, a0, r0, a1, r1, res, new),
            Lookup::NotFound => match lookup(r0, prefix) {
                Lookup::Found(t) => r matches Ok(res) && status_update(t, res.task@, new)
                    && archive_change(a0, r0, a1, r1, res, new),
                l => r is Err && (r matches Err(e) ==> lookup_result(
                    Err::<Task, AppError>(e),
                    l,
                    prefix,
                )),
            },
            l => r is Err && (r matches Err(e) ==> lookup_result(
                Err::<Task, AppError>(e),
                l,
                prefix,
            )),
        },
    }
}

/// Outcome of a status change, finished tasks moving to the archive at once.
pub open spec fn status_outcome(
    a0: Seq<TaskView>,
    r0: Seq<TaskView>,
    a1: Seq<TaskView>,
    r1: Seq<TaskView>,
    prefix: Seq<char>,
    status: Seq<char>,
    r: Result<StatusChangeResult, AppError>,
) -> bool {
    status_outcome_with(true, a0, r0, a1, r1, prefix, status, r)
}

/// The failure `InvalidInput(m)` with message text `m`.
pub open spec fn invalid_input(r: Result<Task, AppError>, m: Seq<char>) -> bool {
    r matches Err(AppError::InvalidInput(x)) && x@ == m
}

/// Outcome of one batch action: `a0`/`r0` and `a1`/`r1` are the active and
/// archived tasks before and after, `r` the task that the action yields.
#[verifier::opaque]
pub open spec fn action_outcome(
    cfg: Settings,
    a0: Seq<TaskView>,
    r0: Seq<TaskView>,
    a1: Seq<TaskView>,
    r1: Seq<TaskView>,
    act: BatchActionView,
    r: Result<Task, AppError>,
) -> bool {
    match act.action {
        None => invalid_input(r, "Missing 'action' field"@) && a1 == a0 && r1 == r0,
        Some(kind) => if kind == "add"@ {
            match act.title {
                None => invalid_input(r, "Missing 'title' for add"@) && a1 == a0 && r1 == r0,
                Some(title) => if act.priority matches Some(p) && priority_from_text(p) is None {
                    invalid_input(r, invalid_value_text("priority"@, act.priority->0)) && a1 == a0
                        && r1 == r0
                } else if act.created_by matches Some(c) && c != "ai"@ && c != "human"@ {
                    invalid_input(r, invalid_value_text("created_by"@, act.created_by->0)) && a1
                        == a0 && r1 == r0
                } else {
                    let rec_text = match act.recurrence {
                        Some(x) => x,
                        None => "never"@,
                    };
                    match recurrence_from_text(rec_text) {
                        Err(m) => invalid_input(r, m) && a1 == a0 && r1 == r0,
                        Ok(rec) => r1 == r0 && add_outcome(
                            cfg,
                            a0,
                            a1,
                            title,
                            act.description,
                            match act.priority {
                                Some(p) => priority_from_text(p)->0,
                                None => Priority::Unset,
                            },
                            if act.created_by == Some("ai"@) {
                                CreatedBy::Ai
                            } else {
                                CreatedBy::Human
                            },
                            act.label,
                            act.project,
                            act.parent_id,
                            rec,
                            r,
                        ),
                    }
                },
            }
        } else if kind == "status"@ {
            match (act.id, act.status) {
                (None, _) => invalid_input(r, "Missing 'id' for status"@) && a1 == a0 && r1 == r0,
                (Some(_), None) => invalid_input(r, "Missing 'status' for status action"@) && a1
                    == a0 && r1 == r0,
                (Some(id), Some(st)) => match r {
                    Ok(t) => exists|res: StatusChangeResult|
                        status_outcome_with(
                            false,
                            a0,
                            r0,
                            a1,
                            r1,
                            id,
                            st,
                            Ok::<StatusChangeResult, AppError>(res),
                        ) && #[trigger] res.task@ == t@,
                    Err(e) => status_outcome_with(
                        false,
                        a0,
                        r0,
                        a1,
                        r1,
                        id,
                        st,
                        Err::<StatusChangeResult, AppError>(e),
                    ),
                },
            }
        } else if kind == "edit"@ {
            match act.id {
                None => invalid_input(r, "Missing 'id' for edit"@) && a1 == a0 && r1 == r0,
                Some(id) => {
                    let rec: Result<Option<RecurrenceView>, Seq<char>> = match act.recurrence {
                        Some(x) => match recurrence_from_text(x) {
                            Ok(v) => Ok(Some(v)),
                            Err(m) => Err(m),
                        },
                        None => Ok(None),
                    };
                    match rec {
                        Err(m) => invalid_input(r, m) && a1 == a0 && r1 == r0,
                        Ok(rv) => r1 == r0 && edit_outcome(
                            cfg,
                            a0,
                            a1,
                            id,
                            act.title,
                            act.description,
                            match act.priority {
                                Some(p) => Some(
                                    match priority_from_text(p) {
                                        Some(x) => x,
                                        None => Priority::Unset,
                                    },
                                ),
                                None => None,
                            },
                            act.label,
                            act.project,
                            act.parent,
                            rv,
                            r,
                        ),
                    }
                },
            }
        } else if kind == "delete"@ {
            match act.id {
                None => invalid_input(r, "Missing 'id' for delete"@) && a1 == a0 && r1 == r0,
                Some(id) => r1 == r0 && match r {
                    Ok(t) => exists|d: DeleteResult|
                        delete_outcome(a0, a1, id, Ok::<DeleteResult, AppError>(d))
                            && #[trigger] d.task@ == t@,
                    Err(e) => delete_outcome(a0, a1, id, Err::<DeleteResult, AppError>(e)),
                },
            }
        } else {
            invalid_input(r, "Unknown batch action: '"@ + kind + "'"@) && a1 == a0 && r1 == r0
        },
    }
}

/// The result entry of a batch action reports the task it yielded or its error message.
pub open spec fn reports(entry: BatchActionResult, r: Result<Task, AppError>) -> bool {
    match r {
        Ok(t) => entry.success && (entry.task matches Some(x) && x@ == t@) && entry.error is None,
        Err(e) => !entry.success && entry.task is None && (entry.error matches Some(m) && m@
            == error_text(e)),
    }
}

/// Number of successful entries.
pub open spec fn count_success(results: Seq<BatchActionResult>) -> nat
    decreases results.len(),
{
    if results.len() == 0 {
        0
    } else {
        count_success(results.drop_last()) + if results.last().success {
            1nat
        } else {
            0nat
        }
    }
}

/// The batch ran its actions in order: `states[i]` holds the active and
/// archived tasks before action `i`, and `outs[i]` is what the action yielded.
pub open spec fn batch_trace(
    cfg: Settings,
    acts: Seq<BatchAction>,
    results: Seq<BatchActionResult>,
    states: Seq<(Seq<TaskView>, Seq<TaskView>)>,
    outs: Seq<Result<Task, AppError>>,
) -> bool {
    &&& states.len() == acts.len() + 1
    &&& outs.len() == acts.len()
    &&& results.len() == acts.len()
    &&& forall|i: int|
        0 <= i < acts.len() ==> action_outcome(
            cfg,
            states[i].0,
            states[i].1,
            states[i + 1].0,
            states[i + 1].1,
            (#[trigger] acts[i])@,
            outs[i],
        ) && reports(results[i], outs[i])
}

/// Every change to the active or archived tasks since `old` is marked for
/// writing back, and what was marked stays marked.
pub open spec fn marks_changes(old: TaskService, new: TaskService) -> bool {
    &&& (old.active_pending() ==> new.active_pending())
    &&& (old.archive_pending() ==> new.archive_pending())
    &&& (new.active() != old.active() ==> new.active_pending())
    &&& (new.archived() != old.archived() ==> new.archive_pending())
    &&& new.versions() == old.versions()
}

/// The first `n` actions of a batch each have their outcome, from state `k`
/// to state `k + 1`, and are reported by their result entry.
pub open spec fn trace_prefix(
    cfg: Settings,
    acts: Seq<BatchAction>,
    states: Seq<(Seq<TaskView>, Seq<TaskView>)>,
    outs: Seq<Result<Task, AppError>>,
    results: Seq<BatchActionResult>,
    n: int,
) -> bool {
    forall|k: int|
        0 <= k < n ==> action_outcome(
            cfg,
            states[k].0,
            states[k].1,
            states[k + 1].0,
            states[k + 1].1,
            (#[trigger] acts[k])@,
            outs[k],
        ) && reports(results[k], outs[k])
}

/// One more action extends a batch trace: `states2`, `outs2` and
/// `results2` are the trace so far with the action's state, outcome and
/// result entry appended.
proof fn lemma_trace_step(
    cfg: Settings,
    acts: Seq<BatchAction>,
    states: Seq<(Seq<TaskView>, Seq<TaskView>)>,
    outs: Seq<Result<Task, AppError>>,
    results: Seq<BatchActionResult>,
    i: int,
    states2: Seq<(Seq<TaskView>, Seq<TaskView>)>,
    outs2: Seq<Result<Task, AppError>>,
    results2: Seq<BatchActionResult>,
)
    requires
        0 <= i < acts.len(),
        states.len() == i + 1,
        outs.len() == i,
        results.len() == i,
        states2.len() == i + 2,
        outs2.len() == i + 1,
        results2.len() == i + 1,
        forall|k: int| 0 <= k <= i ==> states2[k] == states[k],
        forall|k: int| 0 <= k < i ==> outs2[k] == outs[k] && results2[k] == results[k],
        trace_prefix(cfg, acts, states, outs, results, i),
        action_outcome(
            cfg,
            states[i].0,
            states[i].1,
            states2[i + 1].0,
            states2[i + 1].1,
            acts[i]@,
            outs2[i],
        ),
        reports(results2[i], outs2[i]),
    ensures
        trace_prefix(cfg, acts, states2, outs2, results2, i + 1),
{
    assert forall|k: int| 0 <= k < i + 1 implies action_outcome(
        cfg,
        states2[k].0,
        states2[k].1,
        states2[k + 1].0,
        states2[k + 1].1,
        (#[trigger] acts[k])@,
        outs2[k],
    ) && reports(results2[k], outs2[k]) by {
        if k < i {
            assert(states2[k] == states[k] && states2[k + 1] == states[k + 1]);
            assert(outs2[k] == outs[k] && results2[k] == results[k]);
            assert(action_outcome(
                cfg,
                states[k].0,
                states[k].1,
                states[k + 1].0,
                states[k + 1].1,
                acts[k]@,
                outs[k],
            ) && reports(results[k], outs[k]));
        } else {
            assert(states2[k] == states[i]);
        }
    }
}

/// The task service.
pub struct TaskService {
    store: JsonStore,
    settings: Settings,
    archive: JsonStore,
}


/// The tasks of `v` that the query matches.
fn search_in(v: Vec<Task>, query: &str) -> (r: Vec<Task>)
    ensures
        tasks_view(r@) == searched(tasks_view(v@), query@),
{
    let query_lower = lowercase(query);
    let ghost sv = tasks_view(v@);
    let ghost q = query@;
    let mut out: Vec<Task> = Vec::new();
    let mut i: usize = 0;
    while i < v.len()
        invariant
            sv == tasks_view(v@),
            q == query@,
            query_lower@ == lowercase_text(q),
            0 <= i <= v@.len(),
            tasks_view(out@) == searched(sv.take(i as int), q),
        decreases v@.len() - i,
    {
        proof {
            lemma_keep_step(sv, |t: TaskView| search_matches(t, q), i as int);
        }
        let title_lower = lowercase(v[i].title.as_str());
        let title_match = contains_text(title_lower.as_str(), query_lower.as_str());
        let desc_match = match &v[i].content {
            Some(d) => {
                let d_lower = lowercase(d.as_str());
                contains_text(d_lower.as_str(), query_lower.as_str())
            },
            None => false,
        };
        if title_match || desc_match {
            let t = v[i].duplicate();
            let ghost before = out@;
            out.push(t);
            assert(tasks_view(out@) =~= tasks_view(before).push(sv[i as int]));
        }
        i += 1;
    }
    proof {
        lemma_keep_all(sv, |t: TaskView| search_matches(t, q));
    }
    out
}

/// Looks `prefix` up among the tasks of a store.
fn lookup_in(store: &JsonStore, prefix: &str) -> (r: Result<Task, AppError>)
    ensures
        lookup_result(r, lookup(store@, prefix@), prefix@),
{
    if chars_of(prefix).len() < 4 {
        return Err(AppError::IdPrefixTooShort(owned(prefix)));
    }
    let mut matches = store.get_by_prefix(prefix);
    let n = matches.len();
    if n == 0 {
        Err(AppError::TaskNotFound(owned(prefix)))
    } else if n == 1 {
        let t = matches.remove(0);
        Ok(t)
    } else {
        Err(AppError::AmbiguousId { prefix: owned(prefix), count: n })
    }
}

fn invalid_value(what: &str, t: &str) -> (r: String)
    ensures
        r@ == invalid_value_text(what@, t@),
{
    let a = concat("Invalid ", what);
    let b = concat(a.as_str(), ": '");
    let c = concat(b.as_str(), t);
    concat(c.as_str(), "'")
}

/// Position of the first done or cancelled task of `s`, or `s.len()` when
/// there is none.
pub open spec fn first_finished(s: Seq<TaskView>) -> int
    decreases s.len(),
{
    if s.len() == 0 {
        0
    } else if finished(s[0].status) {
        0
    } else {
        1 + first_finished(s.drop_first())
    }
}

/// The active and archived tasks `a` and `r` once every done or cancelled
/// active task has moved to the archive: the first such task moves with its
/// subtasks, then the others likewise.
pub open spec fn swept(a: Seq<TaskView>, r: Seq<TaskView>) -> (Seq<TaskView>, Seq<TaskView>)
    decreases a.len(),
{
    let k = first_finished(a);
    if 0 <= k < a.len() && moved_out(a, a[k].id).len() < a.len() {
        swept(moved_out(a, a[k].id), moved_in(r, a, a[k]))
    } else {
        (a, r)
    }
}

proof fn lemma_first_finished(s: Seq<TaskView>, i: int)
    requires
        0 <= i <= s.len(),
        forall|j: int| 0 <= j < i ==> !finished(#[trigger] s[j].status),
        i < s.len() ==> finished(s[i].status),
    ensures
        first_finished(s) == i,
    decreases i,
{
    if i > 0 {
        let t = s.drop_first();
        assert forall|j: int| 0 <= j < i - 1 implies !finished(#[trigger] t[j].status) by {
            assert(t[j] == s[j + 1]);
        }
        if i - 1 < t.len() {
            assert(t[i - 1] == s[i]);
        }
        lemma_first_finished(t, i - 1);
        assert(!finished(s[0].status));
    }
}

proof fn lemma_remove_ids_len(s: Seq<TaskView>, ids: Seq<TaskId>)
    ensures
        remove_ids(s, ids).len() <= s.len(),
    decreases ids.len(),
{
    if ids.len() > 0 {
        lemma_remove_ids_len(s, ids.drop_last());
        lemma_pos_of(remove_ids(s, ids.drop_last()), ids.last());
    }
}

/// Moving a task out of tasks that hold it leaves fewer tasks.
proof fn lemma_moved_out_shorter(a: Seq<TaskView>, k: int)
    requires
        0 <= k < a.len(),
    ensures
        moved_out(a, a[k].id).len() < a.len(),
{
    let id = a[k].id;
    assert(has_id(a, id));
    lemma_pos_of(a, id);
    let a1 = remove_id(a, id);
    assert(a1.len() == a.len() - 1);
    lemma_remove_ids_len(a1, ids_of(children_of(a, id)));
}

/// Moves the task `task` (as stored in `from`) and its children from one
/// store to the other; returns the number of children moved.
fn move_task(from: &mut JsonStore, to: &mut JsonStore, task: &Task) -> (n: usize)
    ensures
        final(from)@ == moved_out(old(from)@, task.id),
        final(to)@ == moved_in(old(to)@, old(from)@, task@),
        n == children_of(old(from)@, task.id).len(),
        final(from).pending(),
        final(to).pending(),
        final(from).version() == old(from).version(),
        final(to).version() == old(to).version(),
{
    let kids = from.get_children(task.id);
    let ghost kv = tasks_view(kids@);
    let ghost ids = ids_of(kv);
    let ghost from1 = remove_id(from@, task.id);
    let ghost to0 = to@;
    let copy = task.duplicate();
    to.create(copy);
    from.delete(task.id);
    let mut i: usize = 0;
    while i < kids.len()
        invariant
            kv == tasks_view(kids@),
            ids == ids_of(kv),
            0 <= i <= kids@.len(),
            from@ == remove_ids(from1, ids.take(i as int)),
            to@ == to0.push(task@) + kv.take(i as int),
            from.pending(),
            to.pending(),
            from.version() == old(from).version(),
            to.version() == old(to).version(),
        decreases kids@.len() - i,
    {
        let ghost f0 = from@;
        let ghost t0 = to@;
        let id = kids[i].id;
        from.delete(id);
        let k = kids[i].duplicate();
        to.create(k);
        assert(ids.take(i + 1).drop_last() =~= ids.take(i as int));
        assert(ids.take(i + 1).last() == id);
        assert(to@ =~= to0.push(task@) + kv.take(i + 1));
        i += 1;
    }
    assert(ids.take(ids.len() as int) =~= ids);
    assert(kv.take(kv.len() as int) =~= kv);
    kids.len()
}

/// Position of the first done or cancelled task, or the number of tasks.
fn first_finished_pos(v: &Vec<Task>) -> (k: usize)
    ensures
        k == first_finished(tasks_view(v@)),
{
    let ghost sv = tasks_view(v@);
    let mut i: usize = 0;
    while i < v.len()
        invariant
            sv == tasks_view(v@),
            0 <= i <= v@.len(),
            forall|j: int| 0 <= j < i ==> !finished(#[trigger] sv[j].status),
        decreases v@.len() - i,
    {
        if v[i].status.is_finished() {
            proof {
                assert(sv[i as int].status == v@[i as int].status);
                lemma_first_finished(sv, i as int);
            }
            return i;
        }
        assert(sv[i as int].status == v@[i as int].status);
        i += 1;
    }
    proof {
        lemma_first_finished(sv, i as int);
    }
    i
}


impl TaskService {
    /// The active tasks.
    pub closed spec fn active(&self) -> Seq<TaskView> {
        self.store@
    }

    /// The archived tasks.
    pub closed spec fn archived(&self) -> Seq<TaskView> {
        self.archive@
    }

    /// The settings in effect.
    pub closed spec fn config(&self) -> Settings {
        self.settings
    }

    /// The active tasks changed since they were last written back.
    pub closed spec fn active_pending(&self) -> bool {
        self.store.pending()
    }

    /// The archived tasks changed since they were last written back.
    pub closed spec fn archive_pending(&self) -> bool {
        self.archive.pending()
    }

    /// The format versions of the active and the archived task lists.
    pub closed spec fn versions(&self) -> (u32, u32) {
        (self.store.version(), self.archive.version())
    }

    /// A service over the active store `store` and the archive `archive`.
    pub fn new(store: JsonStore, settings: Settings, archive: JsonStore) -> (r: TaskService)
        ensures
            r.active() == store@,
            r.archived() == archive@,
            r.config() == settings,
            r.versions() == (store.version(), archive.version()),
            r.active_pending() == store.pending(),
            r.archive_pending() == archive.pending(),
    {
        TaskService { store, settings, archive }
    }

    /// The active store, to write it back.
    pub fn store(&self) -> (r: &JsonStore)
        ensures
            r@ == self.active(),
            r.pending() == self.active_pending(),
            r.version() == self.versions().0,
    {
        &self.store
    }

    /// The archive store, to write it back.
    pub fn archive_store(&self) -> (r: &JsonStore)
        ensures
            r@ == self.archived(),
            r.pending() == self.archive_pending(),
            r.version() == self.versions().1,
    {
        &self.archive
    }

    /// The settings in effect.
    pub fn settings(&self) -> (r: &Settings)
        ensures
            *r == self.config(),
    {
        &self.settings
    }

    /// Records that both stores were written back: neither has changes
    /// left to write.
    pub fn mark_saved(&mut self)
        ensures
            final(self).active() == old(self).active(),
            final(self).archived() == old(self).archived(),
            final(self).config() == old(self).config(),
            !final(self).active_pending(),
            !final(self).archive_pending(),
    {
        self.store.mark_saved();
        self.archive.mark_saved();
    }

    /// Replaces the held tasks by the task lists read afresh from storage.
    pub fn invalidate_cache(&mut self, fresh_tasks: TaskData, fresh_archive: TaskData)
        ensures
            final(self).active() == tasks_view(fresh_tasks.tasks@),
            final(self).archived() == tasks_view(fresh_archive.tasks@),
            final(self).config() == old(self).config(),
            final(self).active_pending() == old(self).active_pending(),
            final(self).archive_pending() == old(self).archive_pending(),
            final(self).versions() == (fresh_tasks.version, fresh_archive.version),
    {
        self.store.invalidate_cache(fresh_tasks);
        self.archive.invalidate_cache(fresh_archive);
    }

    /// The active task whose identifier starts with `prefix` (at least 4
    /// characters), when exactly one does.
    pub fn get_task(&self, prefix: &str) -> (r: Result<Task, AppError>)
        ensures
            lookup_result(r, lookup(self.active(), prefix@), prefix@),
    {
        lookup_in(&self.store, prefix)
    }

    /// The archived task whose identifier starts with `prefix` (at least 4
    /// characters), when exactly one does.
    pub fn get_task_from_archive(&self, prefix: &str) -> (r: Result<Task, AppError>)
        ensures
            lookup_result(r, lookup(self.archived(), prefix@), prefix@),
    {
        lookup_in(&self.archive, prefix)
    }

    /// The active subtasks of a task, in stored order.
    pub fn get_subtasks(&self, parent_id: TaskId) -> (r: Result<Vec<Task>, AppError>)
        ensures
            r matches Ok(v) && tasks_view(v@) == children_of(self.active(), parent_id),
    {
        Ok(self.store.get_children(parent_id))
    }

    /// The active tasks that the filter selects, in stored order.
    pub fn list_tasks(&self, filter: &TaskFilter) -> (r: Result<Vec<Task>, AppError>)
        ensures
            r matches Ok(v) && tasks_view(v@) == selected(self.active(), filter@),
    {
        Ok(self.store.list(filter))
    }

    /// The archived tasks that the filter selects, in stored order.
    pub fn list_archive(&self, filter: &TaskFilter) -> (r: Result<Vec<Task>, AppError>)
        ensures
            r matches Ok(v) && tasks_view(v@) == selected(self.archived(), filter@),
    {
        Ok(self.archive.list(filter))
    }

    /// The active tasks that the filter selects, in tree order: root tasks by
    /// creation time, each followed by its subtasks by creation time, then the
    /// subtasks whose parent was not selected.
    pub fn list_tasks_tree(&self, filter: &TaskFilter) -> (r: Result<Vec<Task>, AppError>)
        ensures
            r matches Ok(v) && tasks_view(v@) == tree_order(selected(self.active(), filter@)),
    {
        let tasks = self.store.list(filter);
        Ok(tree_sort(&tasks, SortKey::CreatedAt, false))
    }

    /// The active tasks that the filter selects and whose title or content
    /// contains the query, ignoring case.
    pub fn search_tasks(&self, query: &str, filter: &TaskFilter) -> (r: Result<Vec<Task>, AppError>)
        ensures
            r matches Ok(v) && tasks_view(v@) == searched(selected(self.active(), filter@), query@),
    {
        let all_tasks = self.store.list(filter);
        Ok(search_in(all_tasks, query))
    }

    /// The archived tasks that the filter selects and whose title or content
    /// contains the query, ignoring case.
    pub fn search_archive(&self, query: &str, filter: &TaskFilter) -> (r: Result<Vec<Task>, AppError>)
        ensures
            r matches Ok(v) && tasks_view(v@) == searched(selected(self.archived(), filter@), query@),
    {
        let all_tasks = self.archive.list(filter);
        Ok(search_in(all_tasks, query))
    }

    /// Counts of the active tasks that the filter selects.
    pub fn stats(&self, filter: &TaskFilter) -> (r: Result<Stats, AppError>)
        ensures
            r matches Ok(s) && stats_correct(s, selected(self.active(), filter@)),
            r matches Ok(s) && tally_total(s.by_status@) == s.total && tally_total(s.by_priority@)
                == s.total && tally_total(s.by_creator@) == s.total,
    {
        Ok(self.store.stats(filter))
    }

    /// Whether the label is among the allowed labels.
    fn check_label(&self, label: &Option<String>) -> (r: Result<(), AppError>)
        ensures
            match label {
                Some(l) => if label_allowed(self.config(), l@) {
                    r is Ok
                } else {
                    r matches Err(AppError::InvalidLabel(m)) && m@ == l@
                },
                None => r is Ok,
            },
    {
        if let Some(l) = label {
            let allowed = self.settings.all_labels();
            if !contains_string(&allowed, l) {
                return Err(AppError::InvalidLabel(l.clone()));
            }
        }
        Ok(())
    }

    /// Adds a new task. A label must be one of the allowed labels. A parent,
    /// given by identifier prefix, must be an active root task; a subtask
    /// cannot recur, and takes the parent's project when none is given.
    pub fn add_task(
        &mut self,
        title: String,
        content: Option<String>,
        priority: Priority,
        created_by: CreatedBy,
        label: Option<String>,
        project: Option<String>,
        parent_id: Option<String>,
        recurrence: Recurrence,
    ) -> (r: Result<Task, AppError>)
        ensures
            marks_changes(*old(self), *final(self)),
            final(self).archived() == old(self).archived(),
            final(self).config() == old(self).config(),
            add_outcome(
                old(self).config(),
                old(self).active(),
                final(self).active(),
                title@,
                opt_view(content),
                priority,
                created_by,
                opt_view(label),
                opt_view(project),
                opt_view(parent_id),
                recurrence@,
                r,
            ),
    {
        self.check_label(&label)?;
        let resolved_parent_id: Option<TaskId>;
        let mut effective_project = project;
        if let Some(parent_prefix) = &parent_id {
            let parent = match self.get_task(parent_prefix.as_str()) {
                Ok(p) => p,
                Err(e) => return Err(e),
            };
            if parent.parent_id.is_some() {
                return Err(AppError::NestingTooDeep);
            }
            if !recurrence.is_never() {
                return Err(AppError::SubtaskRecurrence);
            }
            if effective_project.is_none() {
                effective_project = copy_opt_text(&parent.project);
            }
            resolved_parent_id = Some(parent.id);
        } else {
            resolved_parent_id = None;
        }
        let now = now_time();
        let task = Task {
            id: new_task_id(),
            title,
            content,
            status: Status::Todo,
            priority,
            created_by,
            label,
            project: effective_project,
            parent_id: resolved_parent_id,
            recurrence,
            created_at: now,
            updated_at: now,
            completed_at: None,
        };
        Ok(self.store.create(task))
    }

    /// Deletes an active task, given by identifier prefix, and its subtasks.
    pub fn delete_task(&mut self, prefix: &str) -> (r: Result<DeleteResult, AppError>)
        ensures
            marks_changes(*old(self), *final(self)),
            final(self).archived() == old(self).archived(),
            final(self).config() == old(self).config(),
            delete_outcome(old(self).active(), final(self).active(), prefix@, r),
    {
        let task = match self.get_task(prefix) {
            Ok(t) => t,
            Err(e) => return Err(e),
        };
        let children = self.store.get_children(task.id);
        let ghost kv = tasks_view(children@);
        let ghost ids = ids_of(kv);
        let ghost a0 = self.store@;
        let deleted_subtasks = children.len();
        let mut i: usize = 0;
        while i < children.len()
            invariant
                kv == tasks_view(children@),
                ids == ids_of(kv),
                0 <= i <= children@.len(),
                self.store@ == remove_ids(a0, ids.take(i as int)),
                self.archive == old(self).archive,
                self.settings == old(self).settings,
                old(self).store.pending() ==> self.store.pending(),
                self.store.version() == old(self).store.version(),
            decreases children@.len() - i,
        {
            let id = children[i].id;
            self.store.delete(id);
            assert(ids.take(i + 1).drop_last() =~= ids.take(i as int));
            assert(ids.take(i + 1).last() == id);
            i += 1;
        }
        assert(ids.take(ids.len() as int) =~= ids);
        self.store.delete(task.id);
        Ok(DeleteResult { task, deleted_subtasks })
    }

    /// Edits the active task given by identifier prefix. At least one
    /// attribute must be given. A label must be allowed; a parent `none`
    /// detaches the task, any other parent (by prefix) must be an active root
    /// task other than the task itself, and a task with subtasks cannot be
    /// given a parent.
    pub fn edit_task(
        &mut self,
        prefix: &str,
        title: Option<String>,
        content: Option<String>,
        priority: Option<Priority>,
        label: Option<String>,
        project: Option<String>,
        parent: Option<String>,
        recurrence: Option<Recurrence>,
    ) -> (r: Result<Task, AppError>)
        ensures
            marks_changes(*old(self), *final(self)),
            final(self).archived() == old(self).archived(),
            final(self).config() == old(self).config(),
            edit_outcome(
                old(self).config(),
                old(self).active(),
                final(self).active(),
                prefix@,
                opt_view(title),
                opt_view(content),
                priority,
                opt_view(label),
                opt_view(project),
                opt_view(parent),
                opt_recurrence(recurrence),
                r,
            ),
    {
        if title.is_none() && content.is_none() && priority.is_none() && label.is_none()
            && project.is_none() && parent.is_none() && recurrence.is_none() {
            return Err(AppError::NoEditFields);
        }
        let mut task = match self.get_task(prefix) {
            Ok(t) => t,
            Err(e) => return Err(e),
        };
        self.check_label(&label)?;
        if let Some(parent_str) = &parent {
            if same_text(parent_str.as_str(), "none") {
                task.parent_id = None;
            } else {
                let parent_task = match self.get_task(parent_str.as_str()) {
                    Ok(p) => p,
                    Err(e) => return Err(e),
                };
                let subtasks = self.store.get_children(task.id);
                if parent_task.parent_id.is_some() || parent_task.id == task.id
                    || subtasks.len() > 0 {
                    return Err(AppError::NestingTooDeep);
                }
                task.parent_id = Some(parent_task.id);
            }
        }
        if let Some(t) = title {
            task.title = t;
        }
        if let Some(d) = content {
            task.content = Some(d);
        }
        if let Some(p) = priority {
            task.priority = p;
        }
        if let Some(l) = label {
            task.label = Some(l);
        }
        if let Some(p) = project {
            task.project = Some(p);
        }
        if let Some(r) = recurrence {
            task.recurrence = r;
        }
        task.updated_at = now_time();
        Ok(self.store.update(task))
    }

    /// The next occurrence of a completed recurring task, added to the active tasks.
    fn generate_next(&mut self, u: &Task, new_status: Status) -> (g: Option<Task>)
        ensures
            marks_changes(*old(self), *final(self)),
            generation_ok(u@, new_status, g),
            final(self).active() == with_generated(old(self).active(), g),
            final(self).archived() == old(self).archived(),
            final(self).config() == old(self).config(),
    {
        if new_status == Status::Done && !u.recurrence.is_never() {
            let now = now_time();
            let new_task = Task {
                id: new_task_id(),
                title: u.title.clone(),
                content: copy_opt_text(&u.content),
                status: Status::Todo,
                priority: u.priority,
                created_by: u.created_by,
                label: copy_opt_text(&u.label),
                project: copy_opt_text(&u.project),
                parent_id: None,
                recurrence: u.recurrence.duplicate(),
                created_at: now,
                updated_at: now,
                completed_at: None,
            };
            let created = self.store.create(new_task);
            Some(created)
        } else {
            None
        }
    }

    /// Changes the status of a task given by identifier prefix. An active
    /// task that becomes done or cancelled moves to the archive with its
    /// subtasks; an archived task that becomes to do or in progress moves back
    /// with its subtasks. Completing a recurring task adds its next
    /// occurrence.
    pub fn change_status(&mut self, prefix: &str, new_status_str: &str) -> (r: Result<
        StatusChangeResult,
        AppError,
    >)
        ensures
            marks_changes(*old(self), *final(self)),
            final(self).config() == old(self).config(),
            status_outcome(
                old(self).active(),
                old(self).archived(),
                final(self).active(),
                final(self).archived(),
                prefix@,
                new_status_str@,
                r,
            ),
    {
        self.apply_status(prefix, new_status_str, true)
    }

    /// Changes the status of a task given by identifier prefix. Where
    /// `archive` is set, an active task that becomes done or cancelled moves
    /// to the archive with its subtasks; an archived task that becomes to do
    /// or in progress moves back with its subtasks. Completing a recurring
    /// task adds its next occurrence.
    fn apply_status(&mut self, prefix: &str, new_status_str: &str, archive: bool) -> (r: Result<
        StatusChangeResult,
        AppError,
    >)
        ensures
            marks_changes(*old(self), *final(self)),
            final(self).config() == old(self).config(),
            status_outcome_with(
                archive,
                old(self).active(),
                old(self).archived(),
                final(self).active(),
                final(self).archived(),
                prefix@,
                new_status_str@,
                r,
            ),
    {
        let new_status = match Status::parse(new_status_str) {
            Ok(s) => s,
            Err(m) => return Err(AppError::InvalidInput(m)),
        };
        let found = self.get_task(prefix);
        let (mut task, in_archive) = match found {
            Ok(t) => (t, false),
            Err(AppError::TaskNotFound(m)) => match self.get_task_from_archive(prefix) {
                Ok(t) => (t, true),
                Err(e) => return Err(e),
            },
            Err(e) => return Err(e),
        };
        let ghost t0 = task@;
        let old_status = task.status;
        task.status = new_status;
        task.updated_at = now_time();
        if new_status == Status::Done {
            task.completed_at = Some(now_time());
        } else if old_status == Status::Done {
            task.completed_at = None;
        }
        if !in_archive {
            self.store.update(task.duplicate());
            let generated_task = self.generate_next(&task, new_status);
            let mut archived = false;
            let mut archived_subtasks: usize = 0;
            if archive && new_status.is_finished() {
                archived_subtasks = move_task(&mut self.store, &mut self.archive, &task);
                archived = true;
            }
            Ok(
                StatusChangeResult {
                    task,
                    generated_task,
                    archived,
                    archived_subtasks,
                    restored: false,
                    restored_subtasks: 0,
                },
            )
        } else {
            self.archive.update(task.duplicate());
            let generated_task = self.generate_next(&task, new_status);
            let mut restored = false;
            let mut restored_subtasks: usize = 0;
            if !new_status.is_finished() {
                restored_subtasks = move_task(&mut self.archive, &mut self.store, &task);
                restored = true;
            }
            Ok(
                StatusChangeResult {
                    task,
                    generated_task,
                    archived: false,
                    archived_subtasks: 0,
                    restored,
                    restored_subtasks,
                },
            )
        }
    }

    /// Moves every done or cancelled active task, with its subtasks, to the
    /// archive.
    fn archive_finished(&mut self)
        ensures
            marks_changes(*old(self), *final(self)),
            final(self).config() == old(self).config(),
            (final(self).active(), final(self).archived()) == swept(
                old(self).active(),
                old(self).archived(),
            ),
    {
        loop
            invariant
                swept(self.active(), self.archived()) == swept(
                    old(self).active(),
                    old(self).archived(),
                ),
                self.config() == old(self).config(),
                marks_changes(*old(self), *self),
            decreases self.active().len(),
        {
            let k = first_finished_pos(&self.store.data().tasks);
            if k >= self.store.data().tasks.len() {
                return;
            }
            let t = self.store.data().tasks[k].duplicate();
            proof {
                lemma_moved_out_shorter(self.active(), k as int);
            }
            move_task(&mut self.store, &mut self.archive, &t);
        }
    }

    /// Runs one action of a batch.
    fn execute_batch_action(&mut self, action: &BatchAction) -> (r: Result<Task, AppError>)
        ensures
            marks_changes(*old(self), *final(self)),
            final(self).config() == old(self).config(),
            action_outcome(
                old(self).config(),
                old(self).active(),
                old(self).archived(),
                final(self).active(),
                final(self).archived(),
                action@,
                r,
            ),
    {
        proof {
            reveal(action_outcome);
        }
        let action_type = match &action.action {
            Some(a) => a,
            None => return Err(AppError::InvalidInput(owned("Missing 'action' field"))),
        };
        let kind = action_type.as_str();
        if same_text(kind, "add") {
            let title = match &action.title {
                Some(t) => t.clone(),
                None => return Err(AppError::InvalidInput(owned("Missing 'title' for add"))),
            };
            let content = copy_opt_text(&action.description);
            let priority = match &action.priority {
                Some(p) => match Priority::parse(p.as_str()) {
                    Ok(x) => x,
                    Err(m) => return Err(AppError::InvalidInput(m)),
                },
                None => Priority::Unset,
            };
            let created_by = match &action.created_by {
                Some(c) => if same_text(c.as_str(), "ai") {
                    CreatedBy::Ai
                } else if same_text(c.as_str(), "human") {
                    CreatedBy::Human
                } else {
                    return Err(AppError::InvalidInput(invalid_value("created_by", c.as_str())));
                },
                None => CreatedBy::Human,
            };
            let label = copy_opt_text(&action.label);
            let project = copy_opt_text(&action.project);
            let parent_id = copy_opt_text(&action.parent_id);
            let recurrence = match &action.recurrence {
                Some(x) => Recurrence::parse(x.as_str()),
                None => Recurrence::parse("never"),
            };
            let recurrence = match recurrence {
                Ok(r) => r,
                Err(m) => return Err(AppError::InvalidInput(m)),
            };
            self.add_task(title, content, priority, created_by, label, project, parent_id, recurrence)
        } else if same_text(kind, "status") {
            let id = match &action.id {
                Some(i) => i,
                None => return Err(AppError::InvalidInput(owned("Missing 'id' for status"))),
            };
            let status = match &action.status {
                Some(st) => st,
                None => return Err(
                    AppError::InvalidInput(owned("Missing 'status' for status action")),
                ),
            };
            let result = self.apply_status(id.as_str(), status.as_str(), false);
            match result {
                Ok(res) => Ok(res.task),
                Err(e) => Err(e),
            }
        } else if same_text(kind, "edit") {
            let id = match &action.id {
                Some(i) => i,
                None => return Err(AppError::InvalidInput(owned("Missing 'id' for edit"))),
            };
            let title = copy_opt_text(&action.title);
            let content = copy_opt_text(&action.description);
            let priority = match &action.priority {
                Some(p) => match Priority::parse(p.as_str()) {
                    Ok(x) => Some(x),
                    Err(_) => Some(Priority::Unset),
                },
                None => None,
            };
            let label = copy_opt_text(&action.label);
            let project = copy_opt_text(&action.project);
            let parent = copy_opt_text(&action.parent);
            let recurrence = match &action.recurrence {
                Some(x) => match Recurrence::parse(x.as_str()) {
                    Ok(r) => Some(r),
                    Err(m) => return Err(AppError::InvalidInput(m)),
                },
                None => None,
            };
            self.edit_task(
                id.as_str(),
                title,
                content,
                priority,
                label,
                project,
                parent,
                recurrence,
            )
        } else if same_text(kind, "delete") {
            let id = match &action.id {
                Some(i) => i,
                None => return Err(AppError::InvalidInput(owned("Missing 'id' for delete"))),
            };
            let result = self.delete_task(id.as_str());
            match result {
                Ok(d) => Ok(d.task),
                Err(e) => Err(e),
            }
        } else {
            let a = concat("Unknown batch action: '", kind);
            Err(AppError::InvalidInput(concat(a.as_str(), "'")))
        }
    }

    /// Runs the actions one after the other; a failing action is reported
    /// and the others still run. Tasks that the batch leaves done or
    /// cancelled move to the archive, with their subtasks, once all actions
    /// have run, so that later actions of the batch still find them.
    pub fn batch(&mut self, actions: Vec<BatchAction>) -> (r: Result<BatchResult, AppError>)
        ensures
            marks_changes(*old(self), *final(self)),
            final(self).config() == old(self).config(),
            r matches Ok(b) && b.summary.total == actions@.len() && b.results@.len()
                == actions@.len() && b.summary.succeeded == count_success(b.results@)
                && b.summary.succeeded + b.summary.failed == actions@.len() && exists|
                states: Seq<(Seq<TaskView>, Seq<TaskView>)>,
                outs: Seq<Result<Task, AppError>>,
            |
                #[trigger] batch_trace(old(self).config(), actions@, b.results@, states, outs)
                    && states[0] == (old(self).active(), old(self).archived()) && swept(
                    states[actions@.len() as int].0,
                    states[actions@.len() as int].1,
                ) == (final(self).active(), final(self).archived()),
    {
        self.store.set_batch_mode(true);
        self.archive.set_batch_mode(true);
        let total = actions.len();
        let mut results: Vec<BatchActionResult> = Vec::new();
        let mut succeeded: usize = 0;
        let mut failed: usize = 0;
        let ghost mut states: Seq<(Seq<TaskView>, Seq<TaskView>)> = seq![
            (self.active(), self.archived()),
        ];
        let ghost mut outs: Seq<Result<Task, AppError>> = Seq::empty();
        let ghost cfg = old(self).config();
        let mut i: usize = 0;
        let ghost s_prev = states;
        while i < total
            invariant
                total == actions@.len(),
                0 <= i <= total,
                results@.len() == i,
                succeeded == count_success(results@),
                succeeded + failed == i,
                self.config() == cfg,
                cfg == old(self).config(),
                marks_changes(*old(self), *self),
                states.len() == i + 1,
                outs.len() == i,
                states[0] == (old(self).active(), old(self).archived()),
                states[i as int] == (self.active(), self.archived()),
                trace_prefix(cfg, actions@, states, outs, results@, i as int),
            decreases total - i,
        {
            let ghost st0 = states;
            let ghost o0 = outs;
            let ghost a_before = self.active();
            let ghost r_before = self.archived();
            let result = self.execute_batch_action(&actions[i]);
            proof {
                states = states.push((self.active(), self.archived()));
                outs = outs.push(result);
            }
            let ghost r0 = results@;
            let ghost res_i = result;
            match result {
                Ok(task) => {
                    succeeded += 1;
                    results.push(BatchActionResult { success: true, task: Some(task), error: None });
                },
                Err(e) => {
                    failed += 1;
                    let msg = e.message();
                    results.push(BatchActionResult { success: false, task: None, error: Some(msg) });
                },
            }
            assert(results@.drop_last() =~= r0);
            assert(reports(results@[i as int], outs[i as int]));
            proof {
                lemma_trace_step(cfg, actions@, st0, o0, r0, i as int, states, outs, results@);
            }
            i += 1;
        }
        self.archive_finished();
        self.store.set_batch_mode(false);
        self.archive.set_batch_mode(false);
        let _ = self.store.flush();
        let _ = self.archive.flush();
        let ghost rv = results@;
        let b = BatchResult { summary: BatchSummary { total, succeeded, failed }, results };
        assert(b.results@ == rv);
        assert forall|k: int|
            0 <= k < actions@.len() implies action_outcome(
            old(self).config(),
            states[k].0,
            states[k].1,
            states[k + 1].0,
            states[k + 1].1,
            (#[trigger] actions@[k])@,
            outs[k],
        ) && reports(rv[k], outs[k]) by {}
        assert(batch_trace(old(self).config(), actions@, b.results@, states, outs));
        Ok(b)
    }
}

} // verus!
