//! `show`: one task in full, with its subtasks or its parent.

use vstd::prelude::*;

use crate::cli::edit::text_message;
use crate::cli::output::{answers, CliResponse};
use crate::error::AppError;
use crate::model::task::{
    created_by_text, id_text, opt_view, priority_text, short_id, short_id_text, status_text,
    tasks_view, time_text, utc_time_text, uuid_text, Task, TaskId, TaskView, Timestamp,
};
use crate::service::task_service::{lookup, lookup_result, Lookup, TaskService};
use crate::store::seqs::children_of;
use crate::text::{
    concat, decimal_text, first_chars, join_lines, lines_joined, number_text, owned, same_text,
    strings_view, take_chars,
};

verus! {

/// Identifier and title of a subtask's parent.
#[derive(Debug)]
pub struct ParentInfo {
    pub id: String,
    pub title: String,
}

/// Data of the answer to `show`.
#[derive(Debug)]
pub struct ShowData {
    pub task: Task,
    pub subtasks: Option<Vec<Task>>,
    pub parent: Option<ParentInfo>,
}

/// Where `show` finds a task: among the active tasks, and, when that lookup
/// fails for any reason, among the archived ones.
pub open spec fn show_lookup(active: Seq<TaskView>, archived: Seq<TaskView>, prefix: Seq<char>) -> Lookup {
    match lookup(active, prefix) {
        Lookup::Found(t) => Lookup::Found(t),
        _ => lookup(archived, prefix),
    }
}

/// The parent shown for a task: the active task found by the first eight
/// characters of the parent identifier, if that lookup finds one.
pub open spec fn shown_parent(active: Seq<TaskView>, parent: Option<TaskId>) -> Option<(Seq<char>, Seq<char>)> {
    match parent {
        Some(pid) => match lookup(active, short_id(pid)) {
            Lookup::Found(p) => Some((uuid_text(p.id), p.title)),
            _ => None,
        },
        None => None,
    }
}

/// A timestamp as shown: chrono's UTC form, or `?` out of its range.
pub open spec fn shown_time(t: Timestamp) -> Seq<char> {
    match utc_time_text(t.secs, t.nanos) {
        Some(t) => t,
        None => "?"@,
    }
}

/// A line for an optional attribute, none when it is absent.
pub open spec fn opt_line(label: Seq<char>, o: Option<Seq<char>>) -> Seq<Seq<char>> {
    match o {
        Some(v) => seq![label + v],
        None => Seq::empty(),
    }
}

/// The line of a subtask in the list of subtasks.
pub open spec fn subtask_line(t: TaskView) -> Seq<char> {
    "  "@ + short_id(t.id) + ".. "@ + status_text(t.status) + " "@ + priority_text(t.priority)
        + " "@ + t.title
}

/// The lines of a task's own attributes.
pub open spec fn attribute_lines(t: TaskView) -> Seq<Seq<char>> {
    seq!["ID:          "@ + uuid_text(t.id), "Title:       "@ + t.title] + opt_line(
        "Content: "@,
        t.content,
    ) + seq![
        "Status:      "@ + status_text(t.status),
        "Priority:    "@ + priority_text(t.priority),
        "Created by:  "@ + created_by_text(t.created_by),
    ] + opt_line("Label:       "@, t.label) + opt_line("Project:     "@, t.project) + seq![
        "Created at:  "@ + shown_time(t.created_at),
        "Updated at:  "@ + shown_time(t.updated_at),
    ]
}

/// The line of the parent, if one is shown.
pub open spec fn parent_lines(parent: Option<ParentInfo>) -> Seq<Seq<char>> {
    match parent {
        Some(p) => seq!["Parent:      "@ + first_chars(p.id@, 8) + ".. "@ + p.title@],
        None => Seq::empty(),
    }
}

/// An empty line, a heading with the number of subtasks, and a line for
/// each subtask, if subtasks are shown.
pub open spec fn subtask_lines(subtasks: Option<Vec<Task>>) -> Seq<Seq<char>> {
    match subtasks {
        Some(subs) => seq![Seq::empty(), "Subtasks ("@ + decimal_text(subs@.len()) + "):"@]
            + tasks_view(subs@).map_values(|s: TaskView| subtask_line(s)),
        None => Seq::empty(),
    }
}

/// The lines of the text form of a task.
pub open spec fn show_lines(d: ShowData) -> Seq<Seq<char>> {
    attribute_lines(d.task@) + parent_lines(d.parent) + subtask_lines(d.subtasks)
}

fn time_line(label: &str, t: Timestamp) -> (r: String)
    ensures
        r@ == label@ + shown_time(t),
{
    match time_text(t) {
        Some(t) => concat(label, t.as_str()),
        None => concat(label, "?"),
    }
}

fn push_opt(lines: &mut Vec<String>, label: &str, o: &Option<String>)
    ensures
        strings_view(final(lines)@) == strings_view(old(lines)@) + opt_line(label@, opt_view(*o)),
{
    let ghost before = lines@;
    if let Some(v) = o {
        lines.push(concat(label, v.as_str()));
        assert(strings_view(lines@) =~= strings_view(before) + opt_line(label@, opt_view(*o)));
    } else {
        assert(strings_view(lines@) =~= strings_view(before) + opt_line(label@, opt_view(*o)));
    }
}

fn push_line(lines: &mut Vec<String>, line: String)
    ensures
        strings_view(final(lines)@) == strings_view(old(lines)@).push(line@),
{
    let ghost before = lines@;
    lines.push(line);
    assert(strings_view(lines@) =~= strings_view(before).push(line@));
}

fn subtask_text(t: &Task) -> (r: String)
    ensures
        r@ == subtask_line(t@),
{
    let id = short_id_text(t.id);
    let a = concat("  ", id.as_str());
    let a = concat(a.as_str(), ".. ");
    let a = concat(a.as_str(), t.status.as_text());
    let a = concat(a.as_str(), " ");
    let a = concat(a.as_str(), t.priority.as_text());
    let a = concat(a.as_str(), " ");
    concat(a.as_str(), t.title.as_str())
}

/// The text form of a shown task: its attributes one per line, then its
/// parent or its subtasks.
pub fn format_text_output(data: &ShowData) -> (r: String)
    ensures
        r@ == lines_joined(show_lines(*data)),
{
    let task = &data.task;
    let mut lines: Vec<String> = Vec::new();
    let id = id_text(task.id);
    push_line(&mut lines, concat("ID:          ", id.as_str()));
    push_line(&mut lines, concat("Title:       ", task.title.as_str()));
    push_opt(&mut lines, "Content: ", &task.content);
    push_line(&mut lines, concat("Status:      ", task.status.as_text()));
    push_line(&mut lines, concat("Priority:    ", task.priority.as_text()));
    push_line(&mut lines, concat("Created by:  ", task.created_by.as_text()));
    push_opt(&mut lines, "Label:       ", &task.label);
    push_opt(&mut lines, "Project:     ", &task.project);
    push_line(&mut lines, time_line("Created at:  ", task.created_at));
    push_line(&mut lines, time_line("Updated at:  ", task.updated_at));
    let ghost after_fixed = strings_view(lines@);
    assert(after_fixed =~= attribute_lines(task@));
    if let Some(p) = &data.parent {
        let short = take_chars(p.id.as_str(), 8);
        let a = concat("Parent:      ", short.as_str());
        let a = concat(a.as_str(), ".. ");
        push_line(&mut lines, concat(a.as_str(), p.title.as_str()));
    }
    let ghost after_parent = strings_view(lines@);
    assert(after_parent =~= after_fixed + parent_lines(data.parent));
    if let Some(subs) = &data.subtasks {
        let empty = owned("");
        proof {
            reveal_strlit("");
        }
        assert(empty@ =~= Seq::<char>::empty());
        push_line(&mut lines, empty);
        let n = number_text(subs.len() as u64);
        assert(n@ == decimal_text(subs@.len()));
        let a = concat("Subtasks (", n.as_str());
        push_line(&mut lines, concat(a.as_str(), "):"));
        let ghost head = strings_view(lines@);
        assert(head =~= after_parent + seq![
            Seq::<char>::empty(),
            "Subtasks ("@ + decimal_text(subs@.len()) + "):"@,
        ]);
        let ghost sv = tasks_view(subs@);
        let mut i: usize = 0;
        while i < subs.len()
            invariant
                sv == tasks_view(subs@),
                0 <= i <= subs@.len(),
                strings_view(lines@) =~= head + sv.take(i as int).map_values(
                    |s: TaskView| subtask_line(s),
                ),
            decreases subs@.len() - i,
        {
            push_line(&mut lines, subtask_text(&subs[i]));
            assert(sv.take(i + 1) =~= sv.take(i as int).push(sv[i as int]));
            i += 1;
        }
        assert(sv.take(sv.len() as int) =~= sv);
        assert(strings_view(lines@) =~= after_parent + subtask_lines(data.subtasks));
    } else {
        assert(strings_view(lines@) =~= after_parent + subtask_lines(data.subtasks));
    }
    assert(strings_view(lines@) =~= show_lines(*data));
    join_lines(&lines)
}

/// Shows the task that `id_prefix` names, active or archived: a root task
/// with its active subtasks, a subtask with its parent. In text format the
/// answer also carries the text form.
pub fn run(service: &TaskService, id_prefix: &str, format: &str) -> (r: Result<
    CliResponse<ShowData>,
    AppError,
>)
    ensures
        match show_lookup(service.active(), service.archived(), id_prefix@) {
            Lookup::Found(t) => r matches Ok(resp) && resp.data matches Some(d) && d.task@ == t
                && match t.parent_id {
                None => d.subtasks matches Some(subs) && tasks_view(subs@) == children_of(
                    service.active(),
                    t.id,
                ),
                Some(_) => d.subtasks is None,
            } && match shown_parent(service.active(), t.parent_id) {
                Some((pid, ptitle)) => d.parent matches Some(p) && p.id@ == pid && p.title@
                    == ptitle,
                None => d.parent is None,
            } && answers(resp, d, text_message(format@, lines_joined(show_lines(d)))),
            l => r is Err && (r matches Err(e) ==> lookup_result(
                Err::<Task, AppError>(e),
                l,
                id_prefix@,
            )),
        },
{
    let task = match service.get_task(id_prefix) {
        Ok(t) => t,
        Err(_) => match service.get_task_from_archive(id_prefix) {
            Ok(t) => t,
            Err(e) => return Err(e),
        },
    };
    let subtasks = if task.parent_id.is_none() {
        match service.get_subtasks(task.id) {
            Ok(c) => Some(c),
            Err(e) => return Err(e),
        }
    } else {
        None
    };
    let parent = match task.parent_id {
        Some(pid) => {
            let prefix = short_id_text(pid);
            match service.get_task(prefix.as_str()) {
                Ok(p) => Some(ParentInfo { id: id_text(p.id), title: p.title }),
                Err(_) => None,
            }
        },
        None => None,
    };
    let data = ShowData { task, subtasks, parent };
    if same_text(format, "text") {
        let msg = format_text_output(&data);
        Ok(CliResponse::success_with_message(data, msg))
    } else {
        Ok(CliResponse::success(data))
    }
}

} // verus!
