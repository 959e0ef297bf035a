//! `archive`: the archived tasks, optionally searched, sorted and limited.

use vstd::prelude::*;

use crate::cli::list::{format_text_table, json_silent, limited, table_text};
use crate::cli::output::{answers, CliResponse};
use crate::error::AppError;
use crate::model::filter::TaskFilter;
use crate::model::order::{sort_key_of, sort_tasks, sorted_by};
use crate::model::task::{opt_view, tasks_view, Task, TaskView};
use crate::service::task_service::{searched, TaskService};
use crate::store::json_store::selected;
use crate::text::same_text;

verus! {

/// Data of the answer to `archive`.
#[derive(Debug)]
pub struct ArchiveData {
    pub count: usize,
    pub tasks: Vec<Task>,
}

/// Parameters of `archive`.
pub struct ArchiveParams {
    pub filter: TaskFilter,
    pub query: Option<String>,
    pub sort: String,
    pub reverse: bool,
    pub limit: Option<usize>,
}

/// What `archive` shows: the selected archived tasks (those that match the
/// query, when there is one), sorted by the field, then cut to the limit.
pub open spec fn archive_result(archived: Seq<TaskView>, params: ArchiveParams) -> Seq<TaskView> {
    let chosen = selected(archived, params.filter@);
    let found = match opt_view(params.query) {
        Some(q) => searched(chosen, q),
        None => chosen,
    };
    limited(sorted_by(found, sort_key_of(params.sort@), params.reverse), params.limit)
}

/// Lists the archived tasks that the parameters select; outside JSON the
/// answer also carries the text table.
pub fn run(service: &TaskService, params: ArchiveParams, format: &str) -> (r: Result<
    CliResponse<ArchiveData>,
    AppError,
>)
    ensures
        r matches Ok(resp) && resp.data matches Some(d) && d.count == d.tasks@.len() && tasks_view(
            d.tasks@,
        ) == archive_result(service.archived(), params) && answers(
            resp,
            d,
            json_silent(format@, table_text(tasks_view(d.tasks@))),
        ),
{
    let found = match &params.query {
        Some(q) => service.search_archive(q.as_str(), &params.filter),
        None => service.list_archive(&params.filter),
    };
    let mut tasks = match found {
        Ok(v) => v,
        Err(e) => return Err(e),
    };
    sort_tasks(&mut tasks, params.sort.as_str(), params.reverse);
    if let Some(limit) = params.limit {
        tasks.truncate(limit);
    }
    let count = tasks.len();
    if same_text(format, "json") {
        Ok(CliResponse::success(ArchiveData { count, tasks }))
    } else {
        let msg = format_text_table(&tasks);
        Ok(CliResponse::success_with_message(ArchiveData { count, tasks }, msg))
    }
}

} // verus!
