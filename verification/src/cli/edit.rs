//! `edit`: changes attributes of a task.

use vstd::prelude::*;

use crate::cli::output::{answers, CliResponse};
use crate::error::AppError;
use crate::i18n::{get_message, message_text, Message};
use crate::model::recurrence::Recurrence;
use crate::model::task::{opt_view, Priority, Task};
use crate::service::task_service::{edit_outcome, opt_recurrence, TaskService};
use crate::text::same_text;

verus! {

/// Data of the answer to `edit`.
#[derive(Debug)]
pub struct EditData {
    pub task: Task,
}

/// Parameters of `edit`.
pub struct EditParams {
    pub id: String,
    pub title: Option<String>,
    pub content: Option<String>,
    pub priority: Option<Priority>,
    pub label: Option<String>,
    pub project: Option<String>,
    pub parent: Option<String>,
    pub recurrence: Option<Recurrence>,
}

/// The message of an answer in a format: the given text in text format,
/// none in any other.
pub open spec fn text_message(format: Seq<char>, text: Seq<char>) -> Option<Seq<char>> {
    if format == "text"@ {
        Some(text)
    } else {
        None
    }
}

/// Edits the task that the parameters name; the answer carries the edited
/// task, and in text format the localized "task updated" message.
pub fn run(service: &mut TaskService, params: EditParams, format: &str, locale: &str) -> (r: Result<
    CliResponse<EditData>,
    AppError,
>)
    ensures
        final(service).archived() == old(service).archived(),
        final(service).config() == old(service).config(),
        match r {
            Ok(resp) => resp.data matches Some(d) && answers(
                resp,
                d,
                text_message(format@, message_text(Message::TaskUpdated, locale@)),
            ) && edit_outcome(
                old(service).config(),
                old(service).active(),
                final(service).active(),
                params.id@,
                opt_view(params.title),
                opt_view(params.content),
                params.priority,
                opt_view(params.label),
                opt_view(params.project),
                opt_view(params.parent),
                opt_recurrence(params.recurrence),
                Ok(d.task),
            ),
            Err(e) => edit_outcome(
                old(service).config(),
                old(service).active(),
                final(service).active(),
                params.id@,
                opt_view(params.title),
                opt_view(params.content),
                params.priority,
                opt_view(params.label),
                opt_view(params.project),
                opt_view(params.parent),
                opt_recurrence(params.recurrence),
                Err(e),
            ),
        },
{
    let task = match service.edit_task(
        params.id.as_str(),
        params.title,
        params.content,
        params.priority,
        params.label,
        params.project,
        params.parent,
        params.recurrence,
    ) {
        Ok(t) => t,
        Err(e) => return Err(e),
    };
    let data = EditData { task };
    if same_text(format, "text") {
        Ok(CliResponse::success_with_message(data, get_message(Message::TaskUpdated, locale)))
    } else {
        Ok(CliResponse::success(data))
    }
}

} // verus!
