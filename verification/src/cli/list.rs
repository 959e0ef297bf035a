//! `list`: the active tasks, as a tree or flat, sorted and limited.

use vstd::prelude::*;

use crate::cli::output::{answers, CliResponse};
use crate::error::AppError;
use crate::model::filter::TaskFilter;
use crate::model::order::{sort_key_of, sort_tasks, sorted_by, SortKey};
use crate::model::task::{
    priority_text, short_id, short_id_text, status_text, tasks_view, Task, TaskView,
};
use crate::model::tree::{tree_sort, tree_sorted};
use crate::service::task_service::{tree_order, TaskService};
use crate::store::json_store::selected;
use crate::text::{
    concat, join_lines, lines_joined, owned, pad_text, padded, same_text, strings_view,
};

verus! {

/// Data of the answer to `list`.
#[derive(Debug)]
pub struct ListData {
    pub count: usize,
    pub tasks: Vec<Task>,
}

/// Parameters of `list`.
pub struct ListParams {
    pub filter: TaskFilter,
    pub sort: String,
    pub reverse: bool,
    pub limit: Option<usize>,
    pub flat: bool,
}

/// The message of an answer in a format: none in JSON, the given text in
/// any other format.
pub open spec fn json_silent(format: Seq<char>, text: Seq<char>) -> Option<Seq<char>> {
    if format == "json"@ {
        None
    } else {
        Some(text)
    }
}

/// At most `limit` leading tasks of `s`.
pub open spec fn limited(s: Seq<TaskView>, limit: Option<usize>) -> Seq<TaskView> {
    match limit {
        Some(n) => if n < s.len() {
            s.take(n as int)
        } else {
            s
        },
        None => s,
    }
}

/// The six columns of a table row, each but the last padded.
pub open spec fn table_row(
    id: Seq<char>,
    status: Seq<char>,
    priority: Seq<char>,
    title: Seq<char>,
    project: Seq<char>,
    label: Seq<char>,
) -> Seq<char> {
    padded(id, 10) + " "@ + padded(status, 14) + " "@ + padded(priority, 10) + " "@ + padded(
        title,
        30,
    ) + " "@ + padded(project, 16) + " "@ + label
}

/// An optional text, empty when absent.
pub open spec fn or_empty(o: Option<Seq<char>>) -> Seq<char> {
    match o {
        Some(s) => s,
        None => Seq::empty(),
    }
}

/// The table line of a task; subtask titles are indented by two spaces.
pub open spec fn task_row(t: TaskView) -> Seq<char> {
    table_row(
        short_id(t.id),
        status_text(t.status),
        priority_text(t.priority),
        if t.parent_id is Some {
            "  "@ + t.title
        } else {
            t.title
        },
        or_empty(t.project),
        or_empty(t.label),
    )
}

/// Header line, then one line per task.
pub open spec fn table_lines(s: Seq<TaskView>) -> Seq<Seq<char>> {
    seq![table_row("ID"@, "Status"@, "Priority"@, "Title"@, "Project"@, "Label"@)] + s.map_values(
        |t: TaskView| task_row(t),
    )
}

/// The text table of tasks.
pub open spec fn table_text(s: Seq<TaskView>) -> Seq<char> {
    lines_joined(table_lines(s))
}

fn row_text(
    id: &str,
    status: &str,
    priority: &str,
    title: &str,
    project: &str,
    label: &str,
) -> (r: String)
    ensures
        r@ == table_row(id@, status@, priority@, title@, project@, label@),
{
    let a = pad_text(id, 10);
    let a = concat(a.as_str(), " ");
    let b = pad_text(status, 14);
    let a = concat(a.as_str(), b.as_str());
    let a = concat(a.as_str(), " ");
    let b = pad_text(priority, 10);
    let a = concat(a.as_str(), b.as_str());
    let a = concat(a.as_str(), " ");
    let b = pad_text(title, 30);
    let a = concat(a.as_str(), b.as_str());
    let a = concat(a.as_str(), " ");
    let b = pad_text(project, 16);
    let a = concat(a.as_str(), b.as_str());
    let a = concat(a.as_str(), " ");
    let r = concat(a.as_str(), label);
    assert(r@ =~= table_row(id@, status@, priority@, title@, project@, label@));
    r
}

fn task_row_text(t: &Task) -> (r: String)
    ensures
        r@ == task_row(t@),
{
    let id = short_id_text(t.id);
    let title = if t.parent_id.is_some() {
        concat("  ", t.title.as_str())
    } else {
        t.title.clone()
    };
    let project = match &t.project {
        Some(p) => p.clone(),
        None => owned(""),
    };
    let label = match &t.label {
        Some(l) => l.clone(),
        None => owned(""),
    };
    proof {
        reveal_strlit("");
    }
    row_text(
        id.as_str(),
        t.status.as_text(),
        t.priority.as_text(),
        title.as_str(),
        project.as_str(),
        label.as_str(),
    )
}

/// The text table of tasks: a header line, then one line per task.
pub fn format_text_table(tasks: &Vec<Task>) -> (r: String)
    ensures
        r@ == table_text(tasks_view(tasks@)),
{
    let ghost sv = tasks_view(tasks@);
    let mut lines: Vec<String> = Vec::new();
    lines.push(row_text("ID", "Status", "Priority", "Title", "Project", "Label"));
    let mut i: usize = 0;
    while i < tasks.len()
        invariant
            sv == tasks_view(tasks@),
            0 <= i <= tasks@.len(),
            strings_view(lines@) =~= table_lines(sv.take(i as int)),
        decreases tasks@.len() - i,
    {
        let line = task_row_text(&tasks[i]);
        let ghost before = lines@;
        lines.push(line);
        proof {
            assert(strings_view(lines@) =~= strings_view(before).push(line@));
            assert(sv.take(i + 1) =~= sv.take(i as int).push(sv[i as int]));
            assert(table_lines(sv.take(i + 1)) =~= table_lines(sv.take(i as int)).push(
                task_row(sv[i as int]),
            ));
        }
        i += 1;
    }
    assert(sv.take(sv.len() as int) =~= sv);
    join_lines(&lines)
}

/// Sorts tasks in tree order under the field that `sort_field` names: roots
/// sorted, each followed by its sorted subtasks, then the subtasks whose
/// parent is not there.
pub fn sort_tree_tasks(tasks: &mut Vec<Task>, sort_field: &str, reverse: bool)
    ensures
        tasks_view(final(tasks)@) == tree_sorted(tasks_view(old(tasks)@), sort_key_of(sort_field@), reverse),
{
    let key = SortKey::from_field(sort_field);
    let sorted = tree_sort(tasks, key, reverse);
    *tasks = sorted;
}

/// What `list` shows: the selected active tasks, in tree order or flat,
/// sorted by the field, then cut to the limit.
pub open spec fn list_result(active: Seq<TaskView>, params: ListParams) -> Seq<TaskView> {
    let key = sort_key_of(params.sort@);
    let chosen = selected(active, params.filter@);
    let ordered = if params.flat {
        sorted_by(chosen, key, params.reverse)
    } else {
        tree_sorted(tree_order(chosen), key, params.reverse)
    };
    limited(ordered, params.limit)
}

/// Lists the active tasks that the parameters select; outside JSON the answer
/// also carries the text table.
pub fn run(service: &TaskService, params: ListParams, format: &str) -> (r: Result<
    CliResponse<ListData>,
    AppError,
>)
    ensures
        r matches Ok(resp) && resp.data matches Some(d) && d.count == d.tasks@.len() && tasks_view(
            d.tasks@,
        ) == list_result(service.active(), params) && answers(
            resp,
            d,
            json_silent(format@, table_text(tasks_view(d.tasks@))),
        ),
{
    let mut tasks = if params.flat {
        match service.list_tasks(&params.filter) {
            Ok(v) => v,
            Err(e) => return Err(e),
        }
    } else {
        match service.list_tasks_tree(&params.filter) {
            Ok(v) => v,
            Err(e) => return Err(e),
        }
    };
    if params.flat {
        sort_tasks(&mut tasks, params.sort.as_str(), params.reverse);
    } else {
        sort_tree_tasks(&mut tasks, params.sort.as_str(), params.reverse);
    }
    if let Some(limit) = params.limit {
        tasks.truncate(limit);
    }
    let count = tasks.len();
    if same_text(format, "json") {
        Ok(CliResponse::success(ListData { count, tasks }))
    } else {
        let msg = format_text_table(&tasks);
        Ok(CliResponse::success_with_message(ListData { count, tasks }, msg))
    }
}

} // verus!
