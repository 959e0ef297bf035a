//! `status`: changes the status of a task.

use vstd::prelude::*;

use crate::cli::edit::text_message;
use crate::cli::output::{answers, CliResponse};
use crate::error::AppError;
use crate::i18n::{get_message, Message};
use crate::model::task::{opt_view, status_text, Task};
use crate::service::task_service::{status_outcome, StatusChangeResult, TaskService};
use crate::text::{concat, owned, same_text};

verus! {

/// Data of the answer to `status`.
#[derive(Debug)]
pub struct StatusData {
    pub task: Task,
    pub generated_task: Option<Task>,
}

/// The localized "status changed" text for a status name.
pub open spec fn status_changed_text(status: Seq<char>, locale: Seq<char>) -> Seq<char> {
    if locale == "ja"@ {
        "ステータスを"@ + status + "に変更しました"@
    } else {
        "Status changed to "@ + status
    }
}

/// The localized "next occurrence created" text for a task title.
pub open spec fn generated_text(title: Seq<char>, locale: Seq<char>) -> Seq<char> {
    if locale == "ja"@ {
        "次回のタスクを作成しました: "@ + title
    } else {
        "Next occurrence created: "@ + title
    }
}

/// The message of the answer to `status`: the status change, then, on a
/// line of its own, the next occurrence that was created, if any.
pub open spec fn status_message(d: StatusData, locale: Seq<char>) -> Seq<char> {
    let first = status_changed_text(status_text(d.task.status), locale);
    match d.generated_task {
        Some(g) => first + seq!['\n'] + generated_text(g.title@, locale),
        None => first,
    }
}

/// Changes the status of the task that `id` names; the answer carries the
/// task and the next occurrence that was created, and in text format the
/// localized messages.
pub fn run(service: &mut TaskService, id: &str, status: &str, format: &str, locale: &str) -> (r:
    Result<CliResponse<StatusData>, AppError>)
    ensures
        final(service).config() == old(service).config(),
        match r {
            Ok(resp) => resp.data matches Some(d) && answers(
                resp,
                d,
                text_message(format@, status_message(d, locale@)),
            ) && exists|sc: StatusChangeResult|
                #![auto]
                status_outcome(
                    old(service).active(),
                    old(service).archived(),
                    final(service).active(),
                    final(service).archived(),
                    id@,
                    status@,
                    Ok(sc),
                ) && sc.task == d.task && sc.generated_task == d.generated_task,
            Err(e) => status_outcome(
                old(service).active(),
                old(service).archived(),
                final(service).active(),
                final(service).archived(),
                id@,
                status@,
                Err(e),
            ),
        },
{
    let result = match service.change_status(id, status) {
        Ok(res) => res,
        Err(e) => return Err(e),
    };
    let ghost sc = result;
    let msg = if same_text(format, "text") {
        let first = get_message(Message::StatusChanged(owned(result.task.status.as_text())), locale);
        match &result.generated_task {
            Some(g) => {
                let with_break = concat(first.as_str(), "\n");
                let second = get_message(Message::RecurringTaskGenerated(g.title.clone()), locale);
                proof {
                    reveal_strlit("\n");
                }
                Some(concat(with_break.as_str(), second.as_str()))
            },
            None => Some(first),
        }
    } else {
        None
    };
    let data = StatusData { task: result.task, generated_task: result.generated_task };
    assert(status_outcome(
        old(service).active(),
        old(service).archived(),
        service.active(),
        service.archived(),
        id@,
        status@,
        Ok(sc),
    ));
    assert(data.task == sc.task && data.generated_task == sc.generated_task);
    assert(opt_view(msg) == text_message(format@, status_message(data, locale@)));
    match msg {
        Some(m) => Ok(CliResponse::success_with_message(data, m)),
        None => Ok(CliResponse::success(data)),
    }
}

} // verus!
