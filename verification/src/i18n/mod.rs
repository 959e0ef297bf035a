//! Localized user messages.

pub mod en;
pub mod ja;

use vstd::prelude::*;

use crate::text::same_text;

verus! {

/// What a message says, before it is put into words.
#[derive(Debug, Clone)]
pub enum Message {
    TaskCreated,
    TaskUpdated,
    TaskDeleted,
    TaskDeletedWithSubtasks(usize),
    StatusChanged(String),
    Initialized(String),
    TaskArchived,
    TaskArchivedWithSubtasks(usize),
    TaskRestored,
    TaskRestoredWithSubtasks(usize),
    RecurringTaskGenerated(String),
}

/// The text of a message in a locale: Japanese for `ja`, English for any
/// other locale.
pub open spec fn message_text(msg: Message, locale: Seq<char>) -> Seq<char> {
    if locale == "ja"@ {
        ja::ja_text(msg)
    } else {
        en::en_text(msg)
    }
}

/// The text of `msg` in `locale`; unknown locales fall back to English.
pub fn get_message(msg: Message, locale: &str) -> (r: String)
    ensures
        r@ == message_text(msg, locale@),
{
    if same_text(locale, "ja") {
        ja::get(msg)
    } else {
        en::get(msg)
    }
}

/// Any locale other than Japanese gets the English text.
pub proof fn law_other_locales_get_english(msg: Message, locale: Seq<char>)
    requires
        locale != "ja"@,
    ensures
        message_text(msg, locale) == message_text(msg, "en"@),
{
    reveal_strlit("ja");
    reveal_strlit("en");
    assert("en"@ != "ja"@) by {
        assert("en"@[0] != "ja"@[0]);
    }
}

} // verus!
