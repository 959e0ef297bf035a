//! `add`: creates a task.

use vstd::prelude::*;

use crate::cli::output::{answers, CliResponse};
use crate::error::AppError;
use crate::i18n::{get_message, message_text, Message};
use crate::model::recurrence::Recurrence;
use crate::model::task::{opt_view, CreatedBy, Priority, Task};
use crate::service::task_service::{add_outcome, TaskService};

verus! {

/// Data of the answer to `add`.
#[derive(Debug)]
pub struct AddData {
    pub task: Task,
}

/// Parameters of `add`.
pub struct AddParams {
    pub title: String,
    pub content: Option<String>,
    pub priority: Priority,
    pub created_by: CreatedBy,
    pub label: Option<String>,
    pub project: Option<String>,
    pub parent: Option<String>,
    pub recurrence: Recurrence,
}

/// Adds the task that the parameters describe; the answer carries it and
/// the localized "task created" message.
pub fn run(service: &mut TaskService, params: AddParams, format: &str, locale: &str) -> (r: Result<
    CliResponse<AddData>,
    AppError,
>)
    ensures
        final(service).archived() == old(service).archived(),
        final(service).config() == old(service).config(),
        match r {
            Ok(resp) => resp.data matches Some(d) && answers(
                resp,
                d,
                Some(message_text(Message::TaskCreated, locale@)),
            ) && add_outcome(
                old(service).config(),
                old(service).active(),
                final(service).active(),
                params.title@,
                opt_view(params.content),
                params.priority,
                params.created_by,
                opt_view(params.label),
                opt_view(params.project),
                opt_view(params.parent),
                params.recurrence@,
                Ok(d.task),
            ),
            Err(e) => add_outcome(
                old(service).config(),
                old(service).active(),
                final(service).active(),
                params.title@,
                opt_view(params.content),
                params.priority,
                params.created_by,
                opt_view(params.label),
                opt_view(params.project),
                opt_view(params.parent),
                params.recurrence@,
                Err(e),
            ),
        },
{
    let task = match service.add_task(
        params.title,
        params.content,
        params.priority,
        params.created_by,
        params.label,
        params.project,
        params.parent,
        params.recurrence,
    ) {
        Ok(t) => t,
        Err(e) => return Err(e),
    };
    Ok(CliResponse::success_with_message(AddData { task }, get_message(Message::TaskCreated, locale)))
}

} // verus!
