//! `init`: prepares a data directory.

use vstd::prelude::*;

use crate::cli::output::{answers, CliResponse};
use crate::error::AppError;
use crate::i18n::{get_message, message_text, Message};

verus! {

/// Decides `init` for the data directory at `path`, given whether its task
/// file exists already: without `force` an existing directory is refused;
/// otherwise the caller writes fresh, empty task and archive files
/// (removing the old ones first), and the answer carries the path and the
/// localized "initialized" message.
pub fn run(path: String, exists: bool, force: bool, locale: &str) -> (r: Result<
    CliResponse<String>,
    AppError,
>)
    ensures
        exists && !force ==> r matches Err(AppError::AlreadyInitialized),
        !(exists && !force) ==> (r matches Ok(resp) && resp.data matches Some(p) && p@ == path@
            && answers(resp, p, Some(message_text(Message::Initialized(p), locale@)))),
{
    if exists && !force {
        return Err(AppError::AlreadyInitialized);
    }
    let shown = path.clone();
    let message = get_message(Message::Initialized(shown), locale);
    Ok(CliResponse::success_with_message(path, message))
}

} // verus!
