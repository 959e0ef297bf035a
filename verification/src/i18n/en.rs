//! English message texts.

use vstd::prelude::*;

use super::Message;
use crate::text::{concat, decimal_text, number_text, owned};

verus! {

/// English text of a message.
pub open spec fn en_text(msg: Message) -> Seq<char> {
    match msg {
        Message::TaskCreated => "Task created"@,
        Message::TaskUpdated => "Task updated"@,
        Message::TaskDeleted => "Task deleted"@,
        Message::TaskDeletedWithSubtasks(n) => "Task deleted with "@ + decimal_text(n as nat)
            + " subtask(s)"@,
        Message::StatusChanged(s) => "Status changed to "@ + s@,
        Message::Initialized(path) => "Initialized todos in "@ + path@,
        Message::TaskArchived => "Task archived"@,
        Message::TaskArchivedWithSubtasks(n) => "Task archived with "@ + decimal_text(n as nat)
            + " subtask(s)"@,
        Message::TaskRestored => "Task restored"@,
        Message::TaskRestoredWithSubtasks(n) => "Task restored with "@ + decimal_text(n as nat)
            + " subtask(s)"@,
        Message::RecurringTaskGenerated(t) => "Next occurrence created: "@ + t@,
    }
}

fn around(before: &str, x: &str, after: &str) -> (r: String)
    ensures
        r@ == before@ + x@ + after@,
{
    let a = concat(before, x);
    concat(a.as_str(), after)
}

fn count_between(before: &str, n: usize, after: &str) -> (r: String)
    ensures
        r@ == before@ + decimal_text(n as nat) + after@,
{
    let t = number_text(n as u64);
    around(before, t.as_str(), after)
}

/// The English text of `msg`.
pub fn get(msg: Message) -> (r: String)
    ensures
        r@ == en_text(msg),
{
    match msg {
        Message::TaskCreated => owned("Task created"),
        Message::TaskUpdated => owned("Task updated"),
        Message::TaskDeleted => owned("Task deleted"),
        Message::TaskDeletedWithSubtasks(n) => count_between("Task deleted with ", n, " subtask(s)"),
        Message::StatusChanged(s) => concat("Status changed to ", s.as_str()),
        Message::Initialized(path) => concat("Initialized todos in ", path.as_str()),
        Message::TaskArchived => owned("Task archived"),
        Message::TaskArchivedWithSubtasks(n) => count_between("Task archived with ", n, " subtask(s)"),
        Message::TaskRestored => owned("Task restored"),
        Message::TaskRestoredWithSubtasks(n) => count_between("Task restored with ", n, " subtask(s)"),
        Message::RecurringTaskGenerated(t) => concat("Next occurrence created: ", t.as_str()),
    }
}

} // verus!
