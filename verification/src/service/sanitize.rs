//! Cleaning of user-entered texts.

use vstd::prelude::*;

use crate::config::settings::Settings;
use crate::error::AppError;
use crate::text::{
    chars_of, concat, decimal_text, is_control, is_control_spec, number_text, owned, string_of,
    trim, trimmed,
};

verus! {

/// `s` without its control characters; newlines stay when `keep_newlines`.
pub open spec fn stripped(s: Seq<char>, keep_newlines: bool) -> Seq<char>
    decreases s.len(),
{
    if s.len() == 0 {
        s
    } else {
        let r = stripped(s.drop_last(), keep_newlines);
        let c = s.last();
        if (keep_newlines && c == '\n') || !is_control_spec(c) {
            r.push(c)
        } else {
            r
        }
    }
}

/// Removes control characters from text, keeping newlines if asked to.
fn strip_control_chars(s: &str, keep_newlines: bool) -> (r: String)
    ensures
        r@ == stripped(s@, keep_newlines),
{
    let v = chars_of(s);
    let mut out: Vec<char> = Vec::new();
    let mut i: usize = 0;
    while i < v.len()
        invariant
            v@ == s@,
            0 <= i <= v@.len(),
            out@ == stripped(v@.take(i as int), keep_newlines),
        decreases v@.len() - i,
    {
        let c = v[i];
        assert(v@.take(i + 1).drop_last() =~= v@.take(i as int));
        assert(v@.take(i + 1).last() == c);
        if (keep_newlines && c == '\n') || !is_control(c) {
            out.push(c);
        }
        i += 1;
    }
    assert(v@.take(v@.len() as int) =~= v@);
    string_of(&out)
}

/// The cleaned text: trimmed, then stripped of control characters.
pub open spec fn cleaned(s: Seq<char>, keep_newlines: bool) -> Seq<char> {
    stripped(trimmed(s), keep_newlines)
}

/// Message of a text over its limit: `<what> too long: <n> chars (max <max>)`.
pub open spec fn too_long_text(what: Seq<char>, n: nat, max: nat) -> Seq<char> {
    what + " too long: "@ + decimal_text(n) + " chars (max "@ + decimal_text(max) + ")"@
}

fn too_long(what: &str, n: usize, max: usize) -> (r: String)
    ensures
        r@ == too_long_text(what@, n as nat, max as nat),
{
    let a = concat(what, " too long: ");
    let b = number_text(n as u64);
    let c = concat(a.as_str(), b.as_str());
    let d = concat(c.as_str(), " chars (max ");
    let e = number_text(max as u64);
    let f = concat(d.as_str(), e.as_str());
    concat(f.as_str(), ")")
}

/// Sanitizes a task title: trims it, strips control characters, and rejects
/// it when empty or longer than `max_title_length` characters.
pub fn sanitize_title(title: &str, settings: &Settings) -> (r: Result<String, AppError>)
    ensures
        cleaned(title@, false).len() == 0 ==> (r matches Err(AppError::InvalidInput(m)) && m@
            == "Title cannot be empty"@),
        cleaned(title@, false).len() > settings.max_title_length ==> (r matches Err(
            AppError::InvalidInput(m),
        ) && m@ == too_long_text(
            "Title"@,
            cleaned(title@, false).len(),
            settings.max_title_length as nat,
        )),
        0 < cleaned(title@, false).len() <= settings.max_title_length ==> (r matches Ok(t) && t@
            == cleaned(title@, false)),
{
    let max_len = settings.max_title_length;
    let trimmed_title = trim(title);
    let sanitized = strip_control_chars(trimmed_title.as_str(), false);
    let n = sanitized.as_str().unicode_len();
    if n == 0 {
        return Err(AppError::InvalidInput(owned("Title cannot be empty")));
    }
    if n > max_len {
        return Err(AppError::InvalidInput(too_long("Title", n, max_len)));
    }
    Ok(sanitized)
}

/// Sanitizes task content: trims it and strips control characters but keeps
/// newlines; `None` when nothing is left; rejected when longer than
/// `max_content_length` characters.
pub fn sanitize_content(content: &str, settings: &Settings) -> (r: Result<Option<String>, AppError>)
    ensures
        cleaned(content@, true).len() == 0 ==> r matches Ok(None),
        cleaned(content@, true).len() > settings.max_content_length ==> (r matches Err(
            AppError::InvalidInput(m),
        ) && m@ == too_long_text(
            "Content"@,
            cleaned(content@, true).len(),
            settings.max_content_length as nat,
        )),
        0 < cleaned(content@, true).len() <= settings.max_content_length ==> (r matches Ok(Some(t))
            && t@ == cleaned(content@, true)),
{
    let max_len = settings.max_content_length;
    let trimmed_content = trim(content);
    let sanitized = strip_control_chars(trimmed_content.as_str(), true);
    let n = sanitized.as_str().unicode_len();
    if n == 0 {
        return Ok(None);
    }
    if n > max_len {
        return Err(AppError::InvalidInput(too_long("Content", n, max_len)));
    }
    Ok(Some(sanitized))
}

/// Sanitizes a project name: trims it and strips control characters; `None`
/// when nothing is left; rejected when longer than `max_project_length`
/// characters.
pub fn sanitize_project(project: &str, settings: &Settings) -> (r: Result<Option<String>, AppError>)
    ensures
        cleaned(project@, false).len() == 0 ==> r matches Ok(None),
        cleaned(project@, false).len() > settings.max_project_length ==> (r matches Err(
            AppError::InvalidInput(m),
        ) && m@ == too_long_text(
            "Project name"@,
            cleaned(project@, false).len(),
            settings.max_project_length as nat,
        )),
        0 < cleaned(project@, false).len() <= settings.max_project_length ==> (r matches Ok(
            Some(t),
        ) && t@ == cleaned(project@, false)),
{
    let max_len = settings.max_project_length;
    let trimmed_project = trim(project);
    let sanitized = strip_control_chars(trimmed_project.as_str(), false);
    let n = sanitized.as_str().unicode_len();
    if n == 0 {
        return Ok(None);
    }
    if n > max_len {
        return Err(AppError::InvalidInput(too_long("Project name", n, max_len)));
    }
    Ok(Some(sanitized))
}

/// Stripping leaves no control character, but for newlines when they are
/// kept.
proof fn lemma_stripped_clean(s: Seq<char>, keep_newlines: bool)
    ensures
        forall|i: int|
            0 <= i < stripped(s, keep_newlines).len() ==> (keep_newlines && #[trigger] stripped(
                s,
                keep_newlines,
            )[i] == '\n') || !is_control_spec(stripped(s, keep_newlines)[i]),
    decreases s.len(),
{
    if s.len() > 0 {
        lemma_stripped_clean(s.drop_last(), keep_newlines);
        let r = stripped(s.drop_last(), keep_newlines);
        assert forall|i: int| 0 <= i < stripped(s, keep_newlines).len() implies (keep_newlines
            && #[trigger] stripped(s, keep_newlines)[i] == '\n') || !is_control_spec(
            stripped(s, keep_newlines)[i],
        ) by {
            if i < r.len() {
                assert(stripped(s, keep_newlines)[i] == r[i]);
            }
        }
    }
}

/// A cleaned text holds no control character; content keeps its line
/// breaks.
pub proof fn law_cleaned_has_no_control_chars(s: Seq<char>, keep_newlines: bool)
    ensures
        forall|i: int|
            0 <= i < cleaned(s, keep_newlines).len() ==> (keep_newlines && #[trigger] cleaned(
                s,
                keep_newlines,
            )[i] == '\n') || !is_control_spec(cleaned(s, keep_newlines)[i]),
{
    lemma_stripped_clean(trimmed(s), keep_newlines);
}

} // verus!
