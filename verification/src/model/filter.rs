//! Criteria that select tasks.

use vstd::prelude::*;

use crate::model::task::{CreatedBy, Priority, Status, Task, TaskId, TaskView, opt_view};

verus! {

/// Selects tasks: every criterion that is set must hold. Done and cancelled
/// tasks are left out unless `include_done` / `include_cancelled` is set.
#[derive(Debug)]
pub struct TaskFilter {
    pub status: Option<Status>,
    pub priority: Option<Priority>,
    pub created_by: Option<CreatedBy>,
    pub label: Option<String>,
    pub project: Option<String>,
    pub parent_id: Option<Option<TaskId>>,
    pub include_done: bool,
    pub include_cancelled: bool,
}

impl Default for TaskFilter {
    fn default() -> (f: TaskFilter)
        ensures
            f.status is None,
            f.priority is None,
            f.created_by is None,
            f.label is None,
            f.project is None,
            f.parent_id is None,
            !f.include_done,
            !f.include_cancelled,
    {
        TaskFilter {
            status: None,
            priority: None,
            created_by: None,
            label: None,
            project: None,
            parent_id: None,
            include_done: false,
            include_cancelled: false,
        }
    }
}

impl TaskFilter {
    /// The filter of a command's criteria. Finished tasks count when all
    /// tasks are asked for or when a status is named.
    pub fn of_criteria(
        status: Option<Status>,
        priority: Option<Priority>,
        created_by: Option<CreatedBy>,
        label: Option<String>,
        project: Option<String>,
        all: bool,
    ) -> (f: TaskFilter)
        ensures
            f.status == status,
            f.priority == priority,
            f.created_by == created_by,
            f.label == label,
            f.project == project,
            f.parent_id is None,
            f.include_done == (all || status is Some),
            f.include_cancelled == (all || status is Some),
    {
        let finished = all || status.is_some();
        TaskFilter {
            status,
            priority,
            created_by,
            label,
            project,
            parent_id: None,
            include_done: finished,
            include_cancelled: finished,
        }
    }
}


/// Mathematical model of a filter.
pub struct FilterView {
    pub status: Option<Status>,
    pub priority: Option<Priority>,
    pub created_by: Option<CreatedBy>,
    pub label: Option<Seq<char>>,
    pub project: Option<Seq<char>>,
    pub parent_id: Option<Option<TaskId>>,
    pub include_done: bool,
    pub include_cancelled: bool,
}

impl View for TaskFilter {
    type V = FilterView;

    open spec fn view(&self) -> FilterView {
        FilterView {
            status: self.status,
            priority: self.priority,
            created_by: self.created_by,
            label: opt_view(self.label),
            project: opt_view(self.project),
            parent_id: self.parent_id,
            include_done: self.include_done,
            include_cancelled: self.include_cancelled,
        }
    }
}

/// The filter selects the task.
pub open spec fn filter_accepts(f: FilterView, t: TaskView) -> bool {
    &&& (f.status matches Some(s) ==> t.status == s)
    &&& (f.priority matches Some(p) ==> t.priority == p)
    &&& (f.label matches Some(l) ==> t.label == Some(l))
    &&& (f.created_by matches Some(c) ==> t.created_by == c)
    &&& (f.project matches Some(p) ==> t.project == Some(p))
    &&& (f.parent_id matches Some(pf) ==> t.parent_id == pf)
    &&& (!f.include_done ==> t.status != Status::Done)
    &&& (!f.include_cancelled ==> t.status != Status::Cancelled)
}

fn same_opt_text(a: &Option<String>, b: &String) -> (r: bool)
    ensures
        r == (opt_view(*a) == Some(b@)),
{
    match a {
        Some(x) => *x == *b,
        None => false,
    }
}

/// Whether the filter selects the task.
pub fn apply_filter(task: &Task, filter: &TaskFilter) -> (r: bool)
    ensures
        r == filter_accepts(filter@, task@),
{
    if let Some(status) = filter.status {
        if task.status != status {
            return false;
        }
    }
    if let Some(priority) = filter.priority {
        if task.priority != priority {
            return false;
        }
    }
    if let Some(label) = &filter.label {
        if !same_opt_text(&task.label, label) {
            return false;
        }
    }
    if let Some(created_by) = filter.created_by {
        if task.created_by != created_by {
            return false;
        }
    }
    if let Some(project) = &filter.project {
        if !same_opt_text(&task.project, project) {
            return false;
        }
    }
    if let Some(parent_filter) = filter.parent_id {
        if task.parent_id != parent_filter {
            return false;
        }
    }
    if !filter.include_done && task.status == Status::Done {
        return false;
    }
    if !filter.include_cancelled && task.status == Status::Cancelled {
        return false;
    }
    true
}

} // verus!
