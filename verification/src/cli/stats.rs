//! `stats`: counts of the active tasks.

use vstd::prelude::*;

use crate::cli::list::json_silent;
use crate::cli::output::{answers, CliResponse};
use crate::error::AppError;
use crate::model::filter::TaskFilter;
use crate::model::stats::Stats;
use crate::service::task_service::TaskService;
use crate::model::task::{status_text, Status, TaskView};
use crate::store::json_store::{count_key, count_status, selected, stats_correct, TallyKind};
use crate::text::{
    concat, decimal_text, join_lines, lines_joined, number_text, owned, strings_view,
};

verus! {

/// The line of one counted key.
pub open spec fn entry_line(e: (String, usize)) -> Seq<char> {
    "  "@ + e.0@ + ": "@ + decimal_text(e.1 as nat)
}

/// A titled section of counts; none when there is nothing counted.
pub open spec fn section_lines(title: Seq<char>, entries: Seq<(String, usize)>) -> Seq<Seq<char>> {
    if entries.len() == 0 {
        Seq::empty()
    } else {
        seq![title] + entries.map_values(|e: (String, usize)| entry_line(e))
    }
}

/// The lines of the text form of the counts.
pub open spec fn stats_lines(s: Stats) -> Seq<Seq<char>> {
    seq![
        "Total: "@ + decimal_text(s.total as nat),
        "  todo: "@ + decimal_text(s.todo as nat) + ", in_progress: "@ + decimal_text(
            s.in_progress as nat,
        ) + ", done: "@ + decimal_text(s.done as nat) + ", cancelled: "@ + decimal_text(
            s.cancelled as nat,
        ),
    ] + section_lines("Priority:"@, s.by_priority@) + section_lines("Labels:"@, s.by_label@)
        + section_lines("Projects:"@, s.by_project@) + section_lines("Creators:"@, s.by_creator@)
}

fn count_line(before: &str, n: usize) -> (r: String)
    ensures
        r@ == before@ + decimal_text(n as nat),
{
    let t = number_text(n as u64);
    concat(before, t.as_str())
}

fn push_section(lines: &mut Vec<String>, title: &str, entries: &Vec<(String, usize)>)
    ensures
        strings_view(final(lines)@) == strings_view(old(lines)@) + section_lines(title@, entries@),
{
    if entries.len() == 0 {
        assert(strings_view(lines@) =~= strings_view(lines@) + Seq::<Seq<char>>::empty());
        return;
    }
    let ghost start = strings_view(lines@);
    lines.push(owned(title));
    let mut i: usize = 0;
    while i < entries.len()
        invariant
            0 <= i <= entries@.len(),
            strings_view(lines@) =~= start + seq![title@] + entries@.take(i as int).map_values(
                |e: (String, usize)| entry_line(e),
            ),
        decreases entries@.len() - i,
    {
        let a = concat("  ", entries[i].0.as_str());
        let b = concat(a.as_str(), ": ");
        let line = count_line(b.as_str(), entries[i].1);
        let ghost before = lines@;
        lines.push(line);
        proof {
            assert(strings_view(lines@) =~= strings_view(before).push(line@));
            assert(entries@.take(i + 1) =~= entries@.take(i as int).push(entries@[i as int]));
        }
        i += 1;
    }
    assert(entries@.take(entries@.len() as int) =~= entries@);
}

/// The text form of the counts: the total, the counts by status, then a
/// section for each attribute that has counted keys.
pub fn format_stats(s: &Stats) -> (r: String)
    ensures
        r@ == lines_joined(stats_lines(*s)),
{
    let mut lines: Vec<String> = Vec::new();
    lines.push(count_line("Total: ", s.total));
    let a = count_line("  todo: ", s.todo);
    let a = concat(a.as_str(), ", in_progress: ");
    let a = count_line(a.as_str(), s.in_progress);
    let a = concat(a.as_str(), ", done: ");
    let a = count_line(a.as_str(), s.done);
    let a = concat(a.as_str(), ", cancelled: ");
    let a = count_line(a.as_str(), s.cancelled);
    lines.push(a);
    push_section(&mut lines, "Priority:", &s.by_priority);
    push_section(&mut lines, "Labels:", &s.by_label);
    push_section(&mut lines, "Projects:", &s.by_project);
    push_section(&mut lines, "Creators:", &s.by_creator);
    assert(strings_view(lines@) =~= stats_lines(*s));
    join_lines(&lines)
}

/// Counts the active tasks that the filter selects; outside JSON the answer
/// also carries the text form.
pub fn run(service: &TaskService, filter: &TaskFilter, format: &str) -> (r: Result<
    CliResponse<Stats>,
    AppError,
>)
    ensures
        r matches Ok(resp) && resp.data matches Some(d) && stats_correct(
            d,
            selected(service.active(), filter@),
        ) && answers(resp, d, json_silent(format@, lines_joined(stats_lines(d)))),
{
    let stats = match service.stats(filter) {
        Ok(s) => s,
        Err(e) => return Err(e),
    };
    if crate::text::same_text(format, "json") {
        Ok(CliResponse::success(stats))
    } else {
        let msg = format_stats(&stats);
        Ok(CliResponse::success_with_message(stats, msg))
    }
}


/// How the text shows the count of one status among `tasks`: the status's
/// name, a colon, and the number of tasks with that status.
pub open spec fn status_count_text(tasks: Seq<TaskView>, st: Status) -> Seq<char> {
    status_text(st) + ": "@ + decimal_text(count_status(tasks, st))
}

/// The text of correct counts of `tasks` starts with the number of tasks,
/// then names each status in workflow order with the number of tasks that
/// have it.
pub proof fn law_stats_text_counts(st: Stats, tasks: Seq<TaskView>)
    requires
        stats_correct(st, tasks),
    ensures
        stats_lines(st)[0] == "Total: "@ + decimal_text(tasks.len()),
        stats_lines(st)[1] == "  "@ + status_count_text(tasks, Status::Todo) + ", "@ + status_count_text(
            tasks,
            Status::InProgress,
        ) + ", "@ + status_count_text(tasks, Status::Done) + ", "@ + status_count_text(
            tasks,
            Status::Cancelled,
        ),
{
    reveal_strlit("  todo: ");
    reveal_strlit(", in_progress: ");
    reveal_strlit(", done: ");
    reveal_strlit(", cancelled: ");
    reveal_strlit("  ");
    reveal_strlit(": ");
    reveal_strlit(", ");
    reveal_strlit("todo");
    reveal_strlit("in_progress");
    reveal_strlit("done");
    reveal_strlit("cancelled");
    assert(stats_lines(st)[1] =~= "  "@ + status_count_text(tasks, Status::Todo) + ", "@ + status_count_text(
        tasks,
        Status::InProgress,
    ) + ", "@ + status_count_text(tasks, Status::Done) + ", "@ + status_count_text(
        tasks,
        Status::Cancelled,
    ));
}


/// A section of the counts by one attribute, as the text shows it: none
/// when nothing was counted, else its title and, for each key counted, the
/// key, a colon and the number of `tasks` with that key.
pub open spec fn counted_section(
    title: Seq<char>,
    tally: Seq<(String, usize)>,
    tasks: Seq<TaskView>,
    kind: TallyKind,
) -> Seq<Seq<char>> {
    if tally.len() == 0 {
        Seq::empty()
    } else {
        seq![title] + Seq::new(
            tally.len(),
            |i: int| "  "@ + tally[i].0@ + ": "@ + decimal_text(count_key(tasks, kind, tally[i].0@)),
        )
    }
}

/// After the two lines of totals, the text of correct counts of `tasks`
/// lists the counts by priority, label, project and creator, each under its
/// own title, each key with the number of tasks that have it.
pub proof fn law_stats_text_sections(st: Stats, tasks: Seq<TaskView>)
    requires
        stats_correct(st, tasks),
    ensures
        stats_lines(st).skip(2) == counted_section("Priority:"@, st.by_priority@, tasks, TallyKind::ByPriority)
            + counted_section("Labels:"@, st.by_label@, tasks, TallyKind::ByLabel) + counted_section(
            "Projects:"@,
            st.by_project@,
            tasks,
            TallyKind::ByProject,
        ) + counted_section("Creators:"@, st.by_creator@, tasks, TallyKind::ByCreator),
{
    assert(section_lines("Priority:"@, st.by_priority@) =~= counted_section(
        "Priority:"@,
        st.by_priority@,
        tasks,
        TallyKind::ByPriority,
    ));
    assert(section_lines("Labels:"@, st.by_label@) =~= counted_section(
        "Labels:"@,
        st.by_label@,
        tasks,
        TallyKind::ByLabel,
    ));
    assert(section_lines("Projects:"@, st.by_project@) =~= counted_section(
        "Projects:"@,
        st.by_project@,
        tasks,
        TallyKind::ByProject,
    ));
    assert(section_lines("Creators:"@, st.by_creator@) =~= counted_section(
        "Creators:"@,
        st.by_creator@,
        tasks,
        TallyKind::ByCreator,
    ));
    assert(stats_lines(st).skip(2) =~= section_lines("Priority:"@, st.by_priority@) + section_lines(
        "Labels:"@,
        st.by_label@,
    ) + section_lines("Projects:"@, st.by_project@) + section_lines("Creators:"@, st.by_creator@));
}

} // verus!
