//! Japanese message texts.

use vstd::prelude::*;

use super::Message;
use crate::text::{concat, decimal_text, number_text, owned};

verus! {

/// Japanese text of a message.
pub open spec fn ja_text(msg: Message) -> Seq<char> {
    match msg {
        Message::TaskCreated => "タスクを作成しました"@,
        Message::TaskUpdated => "タスクを更新しました"@,
        Message::TaskDeleted => "タスクを削除しました"@,
        Message::TaskDeletedWithSubtasks(n) => "タスクとサブタスク"@ + decimal_text(n as nat)
            + "件を削除しました"@,
        Message::StatusChanged(s) => "ステータスを"@ + s@ + "に変更しました"@,
        Message::Initialized(path) => path@ + " に初期化しました"@,
        Message::TaskArchived => "アーカイブしました"@,
        Message::TaskArchivedWithSubtasks(n) => "サブタスク"@ + decimal_text(n as nat)
            + "件と共にアーカイブしました"@,
        Message::TaskRestored => "復元しました"@,
        Message::TaskRestoredWithSubtasks(n) => "サブタスク"@ + decimal_text(n as nat)
            + "件と共に復元しました"@,
        Message::RecurringTaskGenerated(t) => "次回のタスクを作成しました: "@ + t@,
    }
}

fn around(before: &str, x: &str, after: &str) -> (r: String)
    ensures
        r@ == before@ + x@ + after@,
{
    let a = concat(before, x);
    concat(a.as_str(), after)
}

fn count_between(before: &str, n: usize, after: &str) -> (r: String)
    ensures
        r@ == before@ + decimal_text(n as nat) + after@,
{
    let t = number_text(n as u64);
    around(before, t.as_str(), after)
}

/// The Japanese text of `msg`.
pub fn get(msg: Message) -> (r: String)
    ensures
        r@ == ja_text(msg),
{
    match msg {
        Message::TaskCreated => owned("タスクを作成しました"),
        Message::TaskUpdated => owned("タスクを更新しました"),
        Message::TaskDeleted => owned("タスクを削除しました"),
        Message::TaskDeletedWithSubtasks(n) => count_between("タスクとサブタスク", n, "件を削除しました"),
        Message::StatusChanged(s) => around("ステータスを", s.as_str(), "に変更しました"),
        Message::Initialized(path) => concat(path.as_str(), " に初期化しました"),
        Message::TaskArchived => owned("アーカイブしました"),
        Message::TaskArchivedWithSubtasks(n) => count_between(
            "サブタスク",
            n,
            "件と共にアーカイブしました",
        ),
        Message::TaskRestored => owned("復元しました"),
        Message::TaskRestoredWithSubtasks(n) => count_between("サブタスク", n, "件と共に復元しました"),
        Message::RecurringTaskGenerated(t) => concat("次回のタスクを作成しました: ", t.as_str()),
    }
}

} // verus!
