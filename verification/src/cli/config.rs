//! `config`: shows, changes or resets the settings.

use vstd::prelude::*;

use crate::cli::output::CliResponse;
use crate::config::settings::Settings;
use crate::error::AppError;
use crate::model::task::opt_view;
use crate::text::{concat, owned, same_text};

verus! {

/// Parameters of `config`.
pub struct ConfigParams {
    pub show: bool,
    pub mode: Option<String>,
    pub icons: Option<String>,
    pub max_title_length: Option<usize>,
    pub max_content_length: Option<usize>,
    pub max_project_length: Option<usize>,
    pub reset: bool,
    pub yes: bool,
}

/// What `config` does with the settings file.
#[derive(Debug, Clone, Copy, PartialEq, Eq, Structural)]
pub enum ConfigAction {
    /// Delete the local settings file.
    Reset,
    /// Load the settings, apply the changes, save them.
    Update,
    /// Load the settings and show them.
    Show,
}

/// Some change to the settings is asked for.
pub open spec fn has_changes(p: ConfigParams) -> bool {
    p.mode is Some || p.icons is Some || p.max_title_length is Some || p.max_content_length is Some
        || p.max_project_length is Some
}

/// Decides what `config` does: a reset comes first, then changes; with
/// neither, the settings are shown.
pub fn run(params: &ConfigParams) -> (r: ConfigAction)
    ensures
        r == (if params.reset {
            ConfigAction::Reset
        } else if has_changes(*params) {
            ConfigAction::Update
        } else {
            ConfigAction::Show
        }),
{
    if params.reset {
        ConfigAction::Reset
    } else if params.mode.is_some() || params.icons.is_some() || params.max_title_length.is_some()
        || params.max_content_length.is_some() || params.max_project_length.is_some() {
        ConfigAction::Update
    } else {
        ConfigAction::Show
    }
}

/// The refusal of an unknown keybinding mode.
pub open spec fn bad_mode_text(mode: Seq<char>) -> Seq<char> {
    "Invalid keybinding mode: '"@ + mode + "' (valid: vi, default)"@
}

/// The refusal of an unknown icon style.
pub open spec fn bad_icons_text(style: Seq<char>) -> Seq<char> {
    "Invalid icon style: '"@ + style + "' (valid: nerd, chars)"@
}

/// The changes are valid: a mode is `vi` or `default`, an icon style
/// `nerd` or `chars`.
pub open spec fn changes_valid(p: ConfigParams) -> bool {
    &&& (p.mode matches Some(m) ==> m@ == "vi"@ || m@ == "default"@)
    &&& (p.icons matches Some(i) ==> i@ == "nerd"@ || i@ == "chars"@)
}

/// `new` is `old` with the given changes applied.
pub open spec fn changed_settings(old: Settings, new: Settings, p: ConfigParams) -> bool {
    &&& new.keybindings.mode@ == (match p.mode {
        Some(m) => m@,
        None => old.keybindings.mode@,
    })
    &&& new.icons.style@ == (match p.icons {
        Some(i) => i@,
        None => old.icons.style@,
    })
    &&& new.max_title_length == (match p.max_title_length {
        Some(n) => n,
        None => old.max_title_length,
    })
    &&& new.max_content_length == (match p.max_content_length {
        Some(n) => n,
        None => old.max_content_length,
    })
    &&& new.max_project_length == (match p.max_project_length {
        Some(n) => n,
        None => old.max_project_length,
    })
    &&& new.locale == old.locale
    &&& new.extra_labels == old.extra_labels
    &&& new.extra_projects == old.extra_projects
    &&& new.builtin_labels == old.builtin_labels
}

/// Applies the asked-for changes to the settings. An unknown mode is refused
/// first, then an unknown icon style; a refusal leaves the settings as they
/// were.
pub fn apply_changes(settings: &mut Settings, params: &ConfigParams) -> (r: Result<(), AppError>)
    ensures
        changes_valid(*params) ==> r is Ok && changed_settings(*old(settings), *final(settings), *params),
        !changes_valid(*params) ==> *final(settings) == *old(settings) && match params.mode {
            Some(m) if !(m@ == "vi"@ || m@ == "default"@) => r matches Err(AppError::InvalidInput(e))
                && e@ == bad_mode_text(m@),
            _ => params.icons matches Some(i) && r matches Err(AppError::InvalidInput(e)) && e@
                == bad_icons_text(i@),
        },
{
    if let Some(m) = &params.mode {
        if !(same_text(m.as_str(), "vi") || same_text(m.as_str(), "default")) {
            let a = concat("Invalid keybinding mode: '", m.as_str());
            return Err(AppError::InvalidInput(concat(a.as_str(), "' (valid: vi, default)")));
        }
    }
    if let Some(i) = &params.icons {
        if !(same_text(i.as_str(), "nerd") || same_text(i.as_str(), "chars")) {
            let a = concat("Invalid icon style: '", i.as_str());
            return Err(AppError::InvalidInput(concat(a.as_str(), "' (valid: nerd, chars)")));
        }
    }
    if let Some(m) = &params.mode {
        settings.keybindings.mode = m.clone();
    }
    if let Some(i) = &params.icons {
        settings.icons.style = i.clone();
    }
    if let Some(n) = params.max_title_length {
        settings.max_title_length = n;
    }
    if let Some(n) = params.max_content_length {
        settings.max_content_length = n;
    }
    if let Some(n) = params.max_project_length {
        settings.max_project_length = n;
    }
    Ok(())
}

/// The answer to a reset: whether there was a local settings file to delete.
pub fn reset_response(deleted: bool) -> (r: CliResponse<()>)
    ensures
        r.success,
        r.data is None,
        r.error is None,
        opt_view(r.message) == Some(
            if deleted {
                "Local settings reset"@
            } else {
                "No local settings to reset"@
            },
        ),
{
    if deleted {
        CliResponse::message_only(owned("Local settings reset"))
    } else {
        CliResponse::message_only(owned("No local settings to reset"))
    }
}

/// The answer to a change of the settings.
pub fn updated_response() -> (r: CliResponse<()>)
    ensures
        r.success,
        r.data is None,
        r.error is None,
        opt_view(r.message) == Some("Settings updated"@),
{
    CliResponse::message_only(owned("Settings updated"))
}

} // verus!
