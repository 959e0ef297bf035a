//! `search` (and `list` with a query): the active tasks that match a query.

use vstd::prelude::*;

use crate::cli::list::json_silent;
use crate::cli::output::{answers, CliResponse};
use crate::error::AppError;
use crate::model::filter::TaskFilter;
use crate::model::task::{tasks_view, Task};
use crate::service::task_service::{searched, TaskService};
use crate::store::json_store::selected;
use crate::text::{concat, decimal_text, number_text, same_text};

verus! {

/// Data of the answer to `search`.
#[derive(Debug)]
pub struct SearchData {
    pub count: usize,
    pub tasks: Vec<Task>,
}

/// The text of the answer to `search`.
pub open spec fn found_text(count: nat) -> Seq<char> {
    "Found "@ + decimal_text(count) + " task(s)"@
}

/// The active tasks that the filter selects and the query matches, in stored
/// order; outside JSON the answer also says how many were found.
pub fn run(service: &TaskService, query: &str, filter: &TaskFilter, format: &str) -> (r: Result<
    CliResponse<SearchData>,
    AppError,
>)
    ensures
        r matches Ok(resp) && resp.data matches Some(d) && d.count == d.tasks@.len() && tasks_view(
            d.tasks@,
        ) == searched(selected(service.active(), filter@), query@) && answers(
            resp,
            d,
            json_silent(format@, found_text(d.count as nat)),
        ),
{
    let tasks = match service.search_tasks(query, filter) {
        Ok(v) => v,
        Err(e) => return Err(e),
    };
    let count = tasks.len();
    if same_text(format, "json") {
        Ok(CliResponse::success(SearchData { count, tasks }))
    } else {
        let n = number_text(count as u64);
        let a = concat("Found ", n.as_str());
        let msg = concat(a.as_str(), " task(s)");
        Ok(CliResponse::success_with_message(SearchData { count, tasks }, msg))
    }
}

} // verus!
