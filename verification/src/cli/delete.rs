//! `delete`: removes a task and its subtasks.

use vstd::prelude::*;

use crate::cli::edit::text_message;
use crate::cli::output::{answers, CliResponse};
use crate::error::AppError;
use crate::i18n::{get_message, message_text, Message};
use crate::model::task::Task;
use crate::service::task_service::{
    delete_outcome, lookup, lookup_result, DeleteResult, Lookup, TaskService,
};
use crate::store::seqs::children_of;
use crate::text::{concat, decimal_text, number_text, owned, same_text, trim, trimmed};

verus! {

/// Data of the answer to `delete`.
#[derive(Debug)]
pub struct DeleteData {
    pub task: Task,
    pub deleted_subtasks: usize,
}

/// The localized message for a deletion with `n` subtasks.
pub open spec fn deleted_text(n: usize, locale: Seq<char>) -> Seq<char> {
    if n > 0 {
        message_text(Message::TaskDeletedWithSubtasks(n), locale)
    } else {
        message_text(Message::TaskDeleted, locale)
    }
}

/// The question asked before deleting a task with `n` subtasks.
pub open spec fn prompt_text(title: Seq<char>, n: nat) -> Seq<char> {
    if n == 0 {
        "Delete '"@ + title + "' ? [y/N] "@
    } else {
        "Delete '"@ + title + "' and "@ + decimal_text(n) + " subtask(s)? [y/N] "@
    }
}

/// The question to ask before deleting the active task that `id` names.
pub fn confirmation_prompt(service: &TaskService, id: &str) -> (r: Result<String, AppError>)
    ensures
        match lookup(service.active(), id@) {
            Lookup::Found(t) => r matches Ok(p) && p@ == prompt_text(
                t.title,
                children_of(service.active(), t.id).len(),
            ),
            l => r is Err && (r matches Err(e) ==> lookup_result(Err::<Task, AppError>(e), l, id@)),
        },
{
    let task = match service.get_task(id) {
        Ok(t) => t,
        Err(e) => return Err(e),
    };
    let children = match service.get_subtasks(task.id) {
        Ok(c) => c,
        Err(e) => return Err(e),
    };
    let a = concat("Delete '", task.title.as_str());
    if children.len() == 0 {
        Ok(concat(a.as_str(), "' ? [y/N] "))
    } else {
        let b = concat(a.as_str(), "' and ");
        let n = number_text(children.len() as u64);
        let c = concat(b.as_str(), n.as_str());
        Ok(concat(c.as_str(), " subtask(s)? [y/N] "))
    }
}

/// The answer to the question is yes: `y` or `Y`, surrounding whitespace
/// ignored.
pub fn is_confirmed(line: &str) -> (r: bool)
    ensures
        r == (trimmed(line@) == "y"@ || trimmed(line@) == "Y"@),
{
    let t = trim(line);
    same_text(t.as_str(), "y") || same_text(t.as_str(), "Y")
}

/// The text of the refusal in JSON format without `--yes`.
pub open spec fn needs_yes_text() -> Seq<char> {
    "JSON format requires --yes flag for delete"@
}

/// A deletion may go ahead without a question: JSON format asks for `yes`.
pub fn check_unattended(format: &str, yes: bool) -> (r: Result<(), AppError>)
    ensures
        format@ == "json"@ && !yes ==> (r matches Err(AppError::InvalidInput(m)) && m@ == needs_yes_text()),
        !(format@ == "json"@ && !yes) ==> r is Ok,
{
    if same_text(format, "json") && !yes {
        return Err(AppError::InvalidInput(owned("JSON format requires --yes flag for delete")));
    }
    Ok(())
}

/// Deletes the active task that `id` names, with its subtasks. JSON format
/// requires `yes`, since no question can be asked there; in text format the
/// caller asks first when `yes` is false. The answer carries the deleted task
/// and the number of subtasks, and in text format the localized message.
pub fn run(service: &mut TaskService, id: &str, yes: bool, format: &str, locale: &str) -> (r:
    Result<CliResponse<DeleteData>, AppError>)
    ensures
        final(service).archived() == old(service).archived(),
        final(service).config() == old(service).config(),
        format@ == "json"@ && !yes ==> final(service).active() == old(service).active() && (r matches Err(
            AppError::InvalidInput(m),
        ) && m@ == needs_yes_text()),
        !(format@ == "json"@ && !yes) ==> match r {
            Ok(resp) => resp.data matches Some(d) && answers(
                resp,
                d,
                text_message(format@, deleted_text(d.deleted_subtasks, locale@)),
            ) && delete_outcome(
                old(service).active(),
                final(service).active(),
                id@,
                Ok((DeleteResult { task: d.task, deleted_subtasks: d.deleted_subtasks })),
            ),
            Err(e) => delete_outcome(old(service).active(), final(service).active(), id@, Err(e)),
        },
{
    match check_unattended(format, yes) {
        Ok(()) => {},
        Err(e) => return Err(e),
    }
    let result = match service.delete_task(id) {
        Ok(d) => d,
        Err(e) => return Err(e),
    };
    let ghost dr = result;
    let data = DeleteData { task: result.task, deleted_subtasks: result.deleted_subtasks };
    assert(dr == (DeleteResult { task: data.task, deleted_subtasks: data.deleted_subtasks }));
    if same_text(format, "text") {
        let msg = if data.deleted_subtasks > 0 {
            get_message(Message::TaskDeletedWithSubtasks(data.deleted_subtasks), locale)
        } else {
            get_message(Message::TaskDeleted, locale)
        };
        Ok(CliResponse::success_with_message(data, msg))
    } else {
        Ok(CliResponse::success(data))
    }
}

} // verus!
