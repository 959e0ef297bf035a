//! Editing in the task form: single-line text fields, the multi-line
//! content field and the selectors.

use vstd::prelude::*;

use crate::error::{error_text, AppError};
use crate::model::order::priority_rank;
use crate::model::recurrence::{Recurrence, RecurrenceView};
use crate::model::task::{opt_view, short_id, short_id_text, tasks_view, CreatedBy, Priority, Task, TaskId, TaskView};
use crate::service::task_service::{add_outcome, edit_outcome};
use crate::store::json_store::selected;
use crate::text::{
    chars_of, concat, join_lines, lemma_join_split, lemma_split_join, lemma_split_on_concat,
    lemma_split_on_nonempty, lemma_split_on_pieces,
    lines_joined, owned, same_text, split_on, split_text, string_of, strings_view, text_order,
    text_order_spec, trim, trimmed,
};
use crate::tui::app::{Key, KeyInput, after_reload, app_marks, app_wf, form_parent, form_wf, pairs_view, priority_count, selected_of, view_filter, with_message, App, AppState, AppView, FormMode, FormView, TaskFormData};

verus! {

/// `n` kept at most `max`.
pub open spec fn at_most(n: usize, max: nat) -> usize {
    if n > max {
        max as usize
    } else {
        n
    }
}

// --- Single-line text fields ---

/// Text and cursor after typing `c` at the cursor (the cursor first kept
/// within the text).
pub open spec fn typed(t: Seq<char>, cursor: usize, c: char) -> (Seq<char>, int) {
    let k = at_most(cursor, t.len());
    (t.insert(k as int, c), k + 1)
}

/// Text and cursor after deleting the character before the cursor; nothing
/// happens at the start of the text.
pub open spec fn erased(t: Seq<char>, cursor: usize) -> (Seq<char>, int) {
    if cursor == 0 {
        (t, 0)
    } else {
        let k = at_most(cursor, t.len());
        (t.remove(k - 1), k - 1)
    }
}

/// Inserts `c` at the cursor of a one-line field and moves the cursor past it.
pub fn text_insert_char(text: &mut String, cursor: &mut usize, c: char)
    ensures
        final(text)@ == typed(old(text)@, *old(cursor), c).0,
        *final(cursor) == typed(old(text)@, *old(cursor), c).1,
{
    let mut v = chars_of(text.as_str());
    if *cursor > v.len() {
        *cursor = v.len();
    }
    v.insert(*cursor, c);
    let n = v.len();
    assert(*cursor < n);
    *cursor = *cursor + 1;
    *text = string_of(&v);
}

/// Deletes the character before the cursor of a one-line field.
pub fn text_backspace(text: &mut String, cursor: &mut usize)
    requires
        *old(cursor) == 0 || old(text)@.len() > 0,
    ensures
        final(text)@ == erased(old(text)@, *old(cursor)).0,
        *final(cursor) == erased(old(text)@, *old(cursor)).1,
{
    if *cursor == 0 {
        return;
    }
    let mut v = chars_of(text.as_str());
    if *cursor > v.len() {
        *cursor = v.len();
    }
    v.remove(*cursor - 1);
    *cursor = *cursor - 1;
    *text = string_of(&v);
}

/// Moves the cursor of a one-line field one character left.
pub fn text_move_left(text: &str, cursor: &mut usize)
    ensures
        *final(cursor) == if *old(cursor) > 0 {
            (*old(cursor) - 1) as usize
        } else {
            0
        },
{
    if *cursor > 0 {
        *cursor = *cursor - 1;
    }
}

/// Moves the cursor of a one-line field one character right, up to the end.
pub fn text_move_right(text: &str, cursor: &mut usize)
    ensures
        *final(cursor) == if *old(cursor) < text@.len() {
            (*old(cursor) + 1) as usize
        } else {
            *old(cursor)
        },
{
    let v = chars_of(text);
    if *cursor < v.len() {
        *cursor = *cursor + 1;
    }
}

// --- The multi-line content field ---

/// The lines of the content (`split('\n')`).
pub open spec fn lines_of(content: Seq<char>) -> Seq<Seq<char>> {
    split_on(content, '\n')
}

/// The lines of a text.
pub fn content_lines(content: &str) -> (r: Vec<String>)
    ensures
        strings_view(r@) == lines_of(content@),
        r@.len() >= 1,
{
    split_text(content, '\n')
}

/// Lines joined into one text (`join("\n")`).
pub fn content_from_lines(lines: &Vec<String>) -> (r: String)
    ensures
        r@ == lines_joined(strings_view(lines@)),
{
    join_lines(lines)
}

/// Splitting joined lines gives at least as many lines as were joined.
pub proof fn lemma_split_joined_len(lines: Seq<Seq<char>>)
    requires
        lines.len() >= 1,
    ensures
        lines_of(lines_joined(lines)).len() >= lines.len(),
    decreases lines.len(),
{
    lemma_split_on_nonempty(lines.last(), '\n');
    if lines.len() > 1 {
        lemma_split_joined_len(lines.drop_last());
        lemma_split_on_concat(lines_joined(lines.drop_last()), lines.last(), '\n');
    }
}

/// The content form with the cursor row kept to an existing line and the
/// column kept within that line.
pub open spec fn clamped_cursor(f: FormView) -> FormView {
    let lines = lines_of(f.content);
    let row = at_most(f.row, (lines.len() - 1) as nat);
    FormView { row, col: at_most(f.col, lines[row as int].len()), ..f }
}

/// Typing `c` into the content at the cursor.
pub open spec fn content_typed(f: FormView, c: char) -> FormView {
    let g = clamped_cursor(f);
    let lines = lines_of(f.content);
    let line = lines[g.row as int];
    FormView {
        content: lines_joined(lines.update(g.row as int, line.insert(g.col as int, c))),
        col: (g.col + 1) as usize,
        ..g
    }
}

/// Breaking the content's line at the cursor; the cursor goes to the start
/// of the new line.
pub open spec fn content_broken(f: FormView) -> FormView {
    let g = clamped_cursor(f);
    let lines = lines_of(f.content);
    let line = lines[g.row as int];
    FormView {
        content: lines_joined(
            lines.update(g.row as int, line.take(g.col as int)).insert(
                g.row + 1,
                line.skip(g.col as int),
            ),
        ),
        row: (g.row + 1) as usize,
        col: 0,
        ..g
    }
}

/// Deleting before the cursor in the content: a character within the line,
/// or at the start of a line the line break before it (the line joins the
/// one above); nothing at the very start.
pub open spec fn content_erased(f: FormView) -> FormView {
    let g = clamped_cursor(f);
    let lines = lines_of(f.content);
    let line = lines[g.row as int];
    if g.col > 0 {
        FormView {
            content: lines_joined(lines.update(g.row as int, line.remove(g.col - 1))),
            col: (g.col - 1) as usize,
            ..g
        }
    } else if g.row > 0 {
        let above = lines[g.row - 1];
        FormView {
            content: lines_joined(lines.remove(g.row as int).update(g.row - 1, above + line)),
            row: (g.row - 1) as usize,
            col: above.len() as usize,
            ..g
        }
    } else {
        g
    }
}

/// Moving the content cursor up a line, its column kept within that line.
pub open spec fn content_up(f: FormView) -> FormView {
    if f.row > 0 {
        let lines = lines_of(f.content);
        let row = (f.row - 1) as usize;
        FormView { row, col: at_most(f.col, lines[row as int].len()), ..f }
    } else {
        f
    }
}

/// Moving the content cursor down a line, its column kept within that line.
pub open spec fn content_down(f: FormView) -> FormView {
    let lines = lines_of(f.content);
    if f.row + 1 < lines.len() {
        let row = (f.row + 1) as usize;
        FormView { row, col: at_most(f.col, lines[row as int].len()), ..f }
    } else {
        f
    }
}

/// Moving the content cursor left; from the start of a line to the end of
/// the line above.
pub open spec fn content_left(f: FormView) -> FormView {
    if f.col > 0 {
        FormView { col: (f.col - 1) as usize, ..f }
    } else if f.row > 0 {
        let lines = lines_of(f.content);
        FormView { row: (f.row - 1) as usize, col: lines[f.row - 1].len() as usize, ..f }
    } else {
        f
    }
}

/// Moving the content cursor right; from the end of a line to the start of
/// the line below.
pub open spec fn content_right(f: FormView) -> FormView {
    let lines = lines_of(f.content);
    if f.row >= lines.len() {
        f
    } else if f.col < lines[f.row as int].len() {
        FormView { col: (f.col + 1) as usize, ..f }
    } else if f.row + 1 < lines.len() {
        FormView { row: (f.row + 1) as usize, col: 0, ..f }
    } else {
        f
    }
}

fn chars_insert(s: &String, k: usize, c: char) -> (r: String)
    requires
        k <= s@.len(),
    ensures
        r@ == s@.insert(k as int, c),
{
    let mut v = chars_of(s.as_str());
    v.insert(k, c);
    string_of(&v)
}

fn chars_remove(s: &String, k: usize) -> (r: String)
    requires
        k < s@.len(),
    ensures
        r@ == s@.remove(k as int),
{
    let mut v = chars_of(s.as_str());
    v.remove(k);
    string_of(&v)
}

fn chars_take(s: &String, k: usize) -> (r: String)
    requires
        k <= s@.len(),
    ensures
        r@ == s@.take(k as int),
{
    let v = chars_of(s.as_str());
    let mut out: Vec<char> = Vec::new();
    let mut i: usize = 0;
    while i < k
        invariant
            v@ == s@,
            k <= v@.len(),
            0 <= i <= k,
            out@ == v@.take(i as int),
        decreases k - i,
    {
        out.push(v[i]);
        assert(v@.take(i + 1) =~= v@.take(i as int).push(v@[i as int]));
        i += 1;
    }
    string_of(&out)
}

fn chars_skip(s: &String, k: usize) -> (r: String)
    requires
        k <= s@.len(),
    ensures
        r@ == s@.skip(k as int),
{
    let v = chars_of(s.as_str());
    let mut out: Vec<char> = Vec::new();
    let mut i: usize = k;
    while i < v.len()
        invariant
            v@ == s@,
            k <= i <= v@.len(),
            out@ == v@.subrange(k as int, i as int),
        decreases v@.len() - i,
    {
        out.push(v[i]);
        assert(v@.subrange(k as int, i + 1) =~= v@.subrange(k as int, i as int).push(v@[i as int]));
        i += 1;
    }
    assert(v@.subrange(k as int, v@.len() as int) =~= v@.skip(k as int));
    string_of(&out)
}

fn char_count(s: &String) -> (r: usize)
    ensures
        r == s@.len(),
{
    chars_of(s.as_str()).len()
}

/// Keeps the content cursor on an existing line and within that line.
fn clamp_content_cursor(form: &mut TaskFormData, lines: &Vec<String>)
    requires
        strings_view(lines@) == lines_of(old(form)@.content),
        lines@.len() >= 1,
    ensures
        final(form)@ == clamped_cursor(old(form)@),
        final(form).content_cursor_row < lines@.len(),
        final(form).content_cursor_col <= lines@[final(form).content_cursor_row as int]@.len(),
{
    if form.content_cursor_row >= lines.len() {
        form.content_cursor_row = lines.len() - 1;
    }
    let n = char_count(&lines[form.content_cursor_row]);
    if form.content_cursor_col > n {
        form.content_cursor_col = n;
    }
}

/// Types `c` into the content at the cursor.
pub fn content_insert_char(form: &mut TaskFormData, c: char)
    ensures
        final(form)@ == content_typed(old(form)@, c),
{
    let mut lines = content_lines(form.content.as_str());
    clamp_content_cursor(form, &lines);
    let row = form.content_cursor_row;
    let col = form.content_cursor_col;
    let ghost lv = strings_view(lines@);
    let new_line = chars_insert(&lines[row], col, c);
    let n = char_count(&new_line);
    lines.set(row, new_line);
    assert(strings_view(lines@) =~= lv.update(row as int, lv[row as int].insert(col as int, c)));
    assert(col < n);
    form.content_cursor_col = col + 1;
    form.content = content_from_lines(&lines);
}

/// Breaks the content's line at the cursor.
pub fn content_insert_newline(form: &mut TaskFormData)
    ensures
        final(form)@ == content_broken(old(form)@),
{
    let mut lines = content_lines(form.content.as_str());
    clamp_content_cursor(form, &lines);
    let row = form.content_cursor_row;
    let col = form.content_cursor_col;
    let ghost lv = strings_view(lines@);
    let current = chars_take(&lines[row], col);
    let remainder = chars_skip(&lines[row], col);
    lines.set(row, current);
    let n = lines.len();
    assert(row < n);
    lines.insert(row + 1, remainder);
    assert(strings_view(lines@) =~= lv.update(row as int, lv[row as int].take(col as int)).insert(
        row + 1,
        lv[row as int].skip(col as int),
    ));
    form.content_cursor_row = row + 1;
    form.content_cursor_col = 0;
    form.content = content_from_lines(&lines);
}

/// Deletes before the content cursor.
pub fn content_backspace(form: &mut TaskFormData)
    ensures
        final(form)@ == content_erased(old(form)@),
{
    let mut lines = content_lines(form.content.as_str());
    clamp_content_cursor(form, &lines);
    let row = form.content_cursor_row;
    let col = form.content_cursor_col;
    let ghost lv = strings_view(lines@);
    if col > 0 {
        let new_line = chars_remove(&lines[row], col - 1);
        lines.set(row, new_line);
        assert(strings_view(lines@) =~= lv.update(row as int, lv[row as int].remove(col - 1)));
        form.content_cursor_col = col - 1;
    } else if row > 0 {
        let current = lines.remove(row);
        let prev_count = char_count(&lines[row - 1]);
        let mut merged = lines[row - 1].clone();
        merged.append(current.as_str());
        lines.set(row - 1, merged);
        assert(strings_view(lines@) =~= lv.remove(row as int).update(
            row - 1,
            lv[row - 1] + lv[row as int],
        ));
        form.content_cursor_row = row - 1;
        form.content_cursor_col = prev_count;
    } else {
        proof {
            lemma_join_split(old(form)@.content);
        }
    }
    form.content = content_from_lines(&lines);
}

/// Moves the content cursor up a line.
pub fn content_move_up(form: &mut TaskFormData)
    requires
        old(form)@.row <= lines_of(old(form)@.content).len(),
    ensures
        final(form)@ == content_up(old(form)@),
{
    if form.content_cursor_row > 0 {
        form.content_cursor_row = form.content_cursor_row - 1;
        let lines = content_lines(form.content.as_str());
        let n = char_count(&lines[form.content_cursor_row]);
        if form.content_cursor_col > n {
            form.content_cursor_col = n;
        }
    }
}

/// Moves the content cursor down a line.
pub fn content_move_down(form: &mut TaskFormData)
    ensures
        final(form)@ == content_down(old(form)@),
{
    let lines = content_lines(form.content.as_str());
    if form.content_cursor_row < lines.len() - 1 {
        form.content_cursor_row = form.content_cursor_row + 1;
        let n = char_count(&lines[form.content_cursor_row]);
        if form.content_cursor_col > n {
            form.content_cursor_col = n;
        }
    }
}

/// Moves the content cursor left.
pub fn content_move_left(form: &mut TaskFormData)
    requires
        old(form)@.row <= lines_of(old(form)@.content).len(),
    ensures
        final(form)@ == content_left(old(form)@),
{
    if form.content_cursor_col > 0 {
        form.content_cursor_col = form.content_cursor_col - 1;
    } else if form.content_cursor_row > 0 {
        form.content_cursor_row = form.content_cursor_row - 1;
        let lines = content_lines(form.content.as_str());
        form.content_cursor_col = char_count(&lines[form.content_cursor_row]);
    }
}

/// Moves the content cursor right.
pub fn content_move_right(form: &mut TaskFormData)
    ensures
        final(form)@ == content_right(old(form)@),
{
    let lines = content_lines(form.content.as_str());
    if form.content_cursor_row >= lines.len() {
        return;
    }
    let n = char_count(&lines[form.content_cursor_row]);
    if form.content_cursor_col < n {
        form.content_cursor_col = form.content_cursor_col + 1;
    } else if form.content_cursor_row < lines.len() - 1 {
        form.content_cursor_row = form.content_cursor_row + 1;
        form.content_cursor_col = 0;
    }
}

// --- Selectors ---

/// The form after Left on a selector: the priority, label or (except for a
/// subtask form) parent moves one choice back, stopping at the first.
pub open spec fn selector_back(f: FormView) -> FormView {
    if f.focused == 1 && f.priority_index > 0 {
        FormView { priority_index: (f.priority_index - 1) as usize, ..f }
    } else if f.focused == 2 && f.label_index > 0 {
        FormView { label_index: (f.label_index - 1) as usize, ..f }
    } else if f.focused == 4 && f.mode != FormMode::Subtask && f.parent_index > 0 {
        FormView { parent_index: (f.parent_index - 1) as usize, ..f }
    } else {
        f
    }
}

/// The form after Right on a selector: the priority, label or (except for a
/// subtask form) parent moves one choice on, stopping at the last.
pub open spec fn selector_on(f: FormView) -> FormView {
    if f.focused == 1 && f.priority_index < priority_count() - 1 {
        FormView { priority_index: (f.priority_index + 1) as usize, ..f }
    } else if f.focused == 2 && f.label_index < f.labels.len() {
        FormView { label_index: (f.label_index + 1) as usize, ..f }
    } else if f.focused == 4 && f.mode != FormMode::Subtask && f.parent_index < f.parents.len() {
        FormView { parent_index: (f.parent_index + 1) as usize, ..f }
    } else {
        f
    }
}

/// Left on a selector field.
pub fn handle_selector_left(form: &mut TaskFormData)
    ensures
        final(form)@ == selector_back(old(form)@),
{
    if form.focused_field == 1 {
        if form.priority_index > 0 {
            form.priority_index = form.priority_index - 1;
        }
    } else if form.focused_field == 2 {
        if form.label_index > 0 {
            form.label_index = form.label_index - 1;
        }
    } else if form.focused_field == 4 {
        if form.mode != FormMode::Subtask && form.parent_index > 0 {
            form.parent_index = form.parent_index - 1;
        }
    }
}

/// Right on a selector field.
pub fn handle_selector_right(form: &mut TaskFormData)
    ensures
        final(form)@ == selector_on(old(form)@),
{
    if form.focused_field == 1 {
        if form.priority_index < 4 {
            form.priority_index = form.priority_index + 1;
        }
    } else if form.focused_field == 2 {
        if form.label_index < form.available_labels.len() {
            form.label_index = form.label_index + 1;
        }
    } else if form.focused_field == 4 {
        if form.mode != FormMode::Subtask && form.parent_index < form.available_parents.len() {
            form.parent_index = form.parent_index + 1;
        }
    }
}


// --- Opening the form ---

/// The labels the form offers by default.
pub open spec fn form_builtin_labels() -> Seq<Seq<char>> {
    seq!["bug"@, "feature"@, "improvement"@, "documentation"@, "refactor"@, "chore"@]
}

/// `base` followed by the labels of the tasks that are not there yet, in
/// order of first appearance.
pub open spec fn labels_with(base: Seq<Seq<char>>, s: Seq<TaskView>) -> Seq<Seq<char>>
    decreases s.len(),
{
    if s.len() == 0 {
        base
    } else {
        let r = labels_with(base, s.drop_last());
        match s.last().label {
            Some(l) => if r.contains(l) {
                r
            } else {
                r.push(l)
            },
            None => r,
        }
    }
}

/// The labels the form offers: the default ones, then those in use.
pub open spec fn available_labels(active: Seq<TaskView>) -> Seq<Seq<char>> {
    labels_with(form_builtin_labels(), selected(active, view_filter(None, true)))
}

/// The root tasks of `s`, but `exclude`, as (identifier, title).
pub open spec fn parent_candidates(s: Seq<TaskView>, exclude: Option<TaskId>) -> Seq<(TaskId, Seq<char>)>
    decreases s.len(),
{
    if s.len() == 0 {
        Seq::empty()
    } else {
        let r = parent_candidates(s.drop_last(), exclude);
        let t = s.last();
        if t.parent_id is None && exclude != Some(t.id) {
            r.push((t.id, t.title))
        } else {
            r
        }
    }
}

/// Where a stable insertion by title puts `x` into `s`.
pub open spec fn title_insert_pos(s: Seq<(TaskId, Seq<char>)>, x: (TaskId, Seq<char>)) -> int
    decreases s.len(),
{
    if s.len() == 0 {
        0
    } else if text_order_spec(s[0].1, x.1) > 0 {
        0
    } else {
        1 + title_insert_pos(s.drop_first(), x)
    }
}

/// `s` sorted stably by title.
pub open spec fn sorted_by_title(s: Seq<(TaskId, Seq<char>)>) -> Seq<(TaskId, Seq<char>)>
    decreases s.len(),
{
    if s.len() == 0 {
        s
    } else {
        let r = sorted_by_title(s.drop_last());
        r.insert(title_insert_pos(r, s.last()), s.last())
    }
}

/// The parents the form offers: the active, unfinished root tasks but
/// `exclude`, by title.
pub open spec fn available_parents(active: Seq<TaskView>, exclude: Option<TaskId>) -> Seq<(TaskId, Seq<char>)> {
    sorted_by_title(parent_candidates(selected(active, view_filter(None, false)), exclude))
}

/// Position of the first occurrence of `x` in `s`, or -1.
pub open spec fn text_position(s: Seq<Seq<char>>, x: Seq<char>) -> int
    decreases s.len(),
{
    if s.len() == 0 {
        -1
    } else if s[0] == x {
        0
    } else {
        let p = text_position(s.drop_first(), x);
        if p < 0 {
            -1
        } else {
            p + 1
        }
    }
}

/// Position of the first pair with identifier `id` in `s`, or -1.
pub open spec fn id_position(s: Seq<(TaskId, Seq<char>)>, id: TaskId) -> int
    decreases s.len(),
{
    if s.len() == 0 {
        -1
    } else if s[0].0 == id {
        0
    } else {
        let p = id_position(s.drop_first(), id);
        if p < 0 {
            -1
        } else {
            p + 1
        }
    }
}

/// A selector index for a position: 0 when absent, the position plus one
/// otherwise.
pub open spec fn choice_index(position: int) -> usize {
    if position < 0 {
        0
    } else {
        (position + 1) as usize
    }
}

/// An optional text, empty when absent.
pub open spec fn text_or_empty(o: Option<Seq<char>>) -> Seq<char> {
    match o {
        Some(t) => t,
        None => Seq::empty(),
    }
}

/// The form for a new task.
pub open spec fn new_form(active: Seq<TaskView>) -> FormView {
    FormView {
        mode: FormMode::New,
        title: Seq::empty(),
        title_cursor: 0,
        content: Seq::empty(),
        row: 0,
        col: 0,
        priority_index: 0,
        label_index: 0,
        project: Seq::empty(),
        project_cursor: 0,
        parent_index: 0,
        parents: available_parents(active, None),
        editing: None,
        focused: 0,
        labels: available_labels(active),
    }
}

/// The form for editing `t`: its attributes filled in, the cursors at the
/// ends of the title, the project and the content.
pub open spec fn edit_form(t: TaskView, active: Seq<TaskView>) -> FormView {
    let labels = available_labels(active);
    let parents = available_parents(active, Some(t.id));
    let content = text_or_empty(t.content);
    let lines = lines_of(content);
    let project = text_or_empty(t.project);
    FormView {
        mode: FormMode::Edit,
        title: t.title,
        title_cursor: t.title.len() as usize,
        content,
        row: (lines.len() - 1) as usize,
        col: lines.last().len() as usize,
        priority_index: priority_rank(t.priority) as usize,
        label_index: match t.label {
            Some(l) => choice_index(text_position(labels, l)),
            None => 0,
        },
        project,
        project_cursor: project.len() as usize,
        parent_index: match t.parent_id {
            Some(pid) => choice_index(id_position(parents, pid)),
            None => 0,
        },
        parents,
        editing: Some(t.id),
        focused: 0,
        labels,
    }
}

/// The form for a subtask of `t` (of its parent, when `t` is a subtask):
/// the parent chosen, the project taken over.
pub open spec fn subtask_form(t: TaskView, active: Seq<TaskView>) -> FormView {
    let parents = available_parents(active, None);
    let parent = match t.parent_id {
        Some(p) => p,
        None => t.id,
    };
    FormView {
        mode: FormMode::Subtask,
        title: Seq::empty(),
        title_cursor: 0,
        content: Seq::empty(),
        row: 0,
        col: 0,
        priority_index: 0,
        label_index: 0,
        project: text_or_empty(t.project),
        project_cursor: 0,
        parent_index: choice_index(id_position(parents, parent)),
        parents,
        editing: None,
        focused: 0,
        labels: available_labels(active),
    }
}

// --- Saving the form ---

/// A trimmed text, none when nothing is left.
pub open spec fn opt_trimmed(t: Seq<char>) -> Option<Seq<char>> {
    if trimmed(t).len() == 0 {
        None
    } else {
        Some(trimmed(t))
    }
}

/// The label the form's label selector names.
pub open spec fn form_label(f: FormView) -> Option<Seq<char>> {
    if f.label_index == 0 || f.label_index > f.labels.len() {
        None
    } else {
        Some(f.labels[f.label_index - 1])
    }
}

/// The priority at a selector index.
pub open spec fn priority_at(i: usize) -> Priority {
    if i == 0 {
        Priority::Unset
    } else if i == 1 {
        Priority::Low
    } else if i == 2 {
        Priority::Medium
    } else if i == 3 {
        Priority::High
    } else {
        Priority::Critical
    }
}

/// The UI state after a save that succeeded or failed: on success the form
/// closes and the list is shown again; on failure the form stays open.
pub open spec fn after_save(
    a0: AppView,
    active: Seq<TaskView>,
    archived: Seq<TaskView>,
    r: Result<Task, AppError>,
    ok: Seq<char>,
    failed: Seq<char>,
    now: u64,
) -> AppView {
    match r {
        Ok(_) => after_reload(
            AppView {
                active,
                archived,
                state: AppState::TaskList,
                form: None,
                ..with_message(a0, ok, now)
            },
        ),
        Err(e) => AppView {
            active,
            archived,
            state: AppState::TaskForm,
            ..with_message(a0, failed + error_text(e), now)
        },
    }
}

/// What saving the form does: an empty title is refused; an edit form
/// edits its task (looked up by the first eight characters of its
/// identifier; no parent detaches it); other forms add a task by a human,
/// as a subtask when a parent is chosen. The texts are trimmed and empty
/// ones dropped.
pub open spec fn form_saved(a0: AppView, a1: AppView, now: u64) -> bool {
    match a0.form {
        None => a1 == a0,
        Some(f) => if trimmed(f.title).len() == 0 {
            a1 == with_message(a0, "Title cannot be empty"@, now)
        } else if f.mode == FormMode::Edit {
            match f.editing {
                None => a1 == (AppView {
                    state: AppState::TaskForm,
                    ..with_message(a0, "No task ID for edit"@, now)
                }),
                Some(id) => exists|r: Result<Task, AppError>|
                    #![trigger edit_outcome(a0.config, a0.active, a1.active, short_id(id), Some(trimmed(f.title)), opt_trimmed(f.content), Some(priority_at(f.priority_index)), form_label(f), opt_trimmed(f.project), Some(parent_choice(f)), None, r)]
                    edit_outcome(
                        a0.config,
                        a0.active,
                        a1.active,
                        short_id(id),
                        Some(trimmed(f.title)),
                        opt_trimmed(f.content),
                        Some(priority_at(f.priority_index)),
                        form_label(f),
                        opt_trimmed(f.project),
                        Some(parent_choice(f)),
                        None,
                        r,
                    ) && a1 == after_save(
                        a0,
                        a1.active,
                        a0.archived,
                        r,
                        "Task updated"@,
                        "Failed to update task: "@,
                        now,
                    ),
            }
        } else {
            exists|r: Result<Task, AppError>|
                #![trigger add_outcome(a0.config, a0.active, a1.active, trimmed(f.title), opt_trimmed(f.content), priority_at(f.priority_index), CreatedBy::Human, form_label(f), opt_trimmed(f.project), parent_prefix(f), RecurrenceView::Never, r)]
                add_outcome(
                    a0.config,
                    a0.active,
                    a1.active,
                    trimmed(f.title),
                    opt_trimmed(f.content),
                    priority_at(f.priority_index),
                    CreatedBy::Human,
                    form_label(f),
                    opt_trimmed(f.project),
                    parent_prefix(f),
                    RecurrenceView::Never,
                    r,
                ) && a1 == after_save(
                    a0,
                    a1.active,
                    a0.archived,
                    r,
                    if parent_prefix(f) is Some {
                        "Subtask created"@
                    } else {
                        "Task created"@
                    },
                    "Failed to create task: "@,
                    now,
                )
        },
    }
}

/// The parent prefix an add uses: the first eight characters of the chosen
/// parent's identifier.
pub open spec fn parent_prefix(f: FormView) -> Option<Seq<char>> {
    match form_parent(f) {
        Some(pid) => Some(short_id(pid)),
        None => None,
    }
}

/// The parent an edit asks for: the chosen parent's prefix, or `none`.
pub open spec fn parent_choice(f: FormView) -> Seq<char> {
    match form_parent(f) {
        Some(pid) => short_id(pid),
        None => "none"@,
    }
}

pub(crate) fn priority_choice(i: usize) -> (p: Priority)
    requires
        i < priority_count(),
    ensures
        p == priority_at(i),
{
    if i == 0 {
        Priority::Unset
    } else if i == 1 {
        Priority::Low
    } else if i == 2 {
        Priority::Medium
    } else if i == 3 {
        Priority::High
    } else {
        Priority::Critical
    }
}

fn trimmed_or_none(t: &String) -> (r: Option<String>)
    ensures
        opt_view(r) == opt_trimmed(t@),
{
    let s = trim(t.as_str());
    if chars_of(s.as_str()).len() == 0 {
        None
    } else {
        Some(s)
    }
}

fn contains_label(v: &Vec<String>, x: &String) -> (r: bool)
    ensures
        r == strings_view(v@).contains(x@),
{
    let ghost sv = strings_view(v@);
    let mut i: usize = 0;
    while i < v.len()
        invariant
            sv == strings_view(v@),
            0 <= i <= v@.len(),
            forall|k: int| 0 <= k < i ==> sv[k] != x@,
        decreases v@.len() - i,
    {
        if same_text(v[i].as_str(), x.as_str()) {
            assert(sv[i as int] == x@);
            return true;
        }
        i += 1;
    }
    false
}

proof fn lemma_title_insert_pos(s: Seq<(TaskId, Seq<char>)>, x: (TaskId, Seq<char>), k: int)
    requires
        0 <= k <= s.len(),
        forall|j: int| 0 <= j < k ==> text_order_spec((#[trigger] s[j]).1, x.1) <= 0,
        k < s.len() ==> text_order_spec(s[k].1, x.1) > 0,
    ensures
        title_insert_pos(s, x) == k,
    decreases k,
{
    if k > 0 {
        assert forall|j: int| 0 <= j < k - 1 implies text_order_spec(
            (#[trigger] s.drop_first()[j]).1,
            x.1,
        ) <= 0 by {
            assert(s.drop_first()[j] == s[j + 1]);
        }
        assert(text_order_spec(s[0].1, x.1) <= 0);
        lemma_title_insert_pos(s.drop_first(), x, k - 1);
    }
}

fn insert_by_title(v: &mut Vec<(TaskId, String)>, x: (TaskId, String))
    ensures
        pairs_view(final(v)@) == pairs_view(old(v)@).insert(
            title_insert_pos(pairs_view(old(v)@), (x.0, x.1@)),
            (x.0, x.1@),
        ),
{
    let ghost sv = pairs_view(v@);
    let ghost xv = (x.0, x.1@);
    let mut k: usize = 0;
    while k < v.len() && text_order(v[k].1.as_str(), x.1.as_str()) <= 0
        invariant
            sv == pairs_view(v@),
            xv == (x.0, x.1@),
            0 <= k <= v@.len(),
            forall|j: int| 0 <= j < k ==> text_order_spec((#[trigger] sv[j]).1, xv.1) <= 0,
        decreases v@.len() - k,
    {
        k += 1;
    }
    proof {
        lemma_title_insert_pos(sv, xv, k as int);
    }
    v.insert(k, x);
    assert(pairs_view(v@) =~= sv.insert(k as int, xv));
}

fn position_of_text(v: &Vec<String>, x: &String) -> (r: usize)
    ensures
        r == choice_index(text_position(strings_view(v@), x@)),
{
    let ghost sv = strings_view(v@);
    assert(sv.skip(0) =~= sv);
    let mut i: usize = 0;
    while i < v.len()
        invariant
            sv == strings_view(v@),
            0 <= i <= v@.len(),
            text_position(sv, x@) == if text_position(sv.skip(i as int), x@) < 0 {
                -1
            } else {
                text_position(sv.skip(i as int), x@) + i
            },
        decreases v@.len() - i,
    {
        assert(sv.skip(i as int).drop_first() =~= sv.skip(i + 1));
        assert(sv.skip(i as int)[0] == sv[i as int]);
        if same_text(v[i].as_str(), x.as_str()) {
            return i + 1;
        }
        i += 1;
    }
    assert(sv.skip(i as int).len() == 0);
    0
}

fn position_of_id(v: &Vec<(TaskId, String)>, id: TaskId) -> (r: usize)
    ensures
        r == choice_index(id_position(pairs_view(v@), id)),
{
    let ghost sv = pairs_view(v@);
    assert(sv.skip(0) =~= sv);
    let mut i: usize = 0;
    while i < v.len()
        invariant
            sv == pairs_view(v@),
            0 <= i <= v@.len(),
            id_position(sv, id) == if id_position(sv.skip(i as int), id) < 0 {
                -1
            } else {
                id_position(sv.skip(i as int), id) + i
            },
        decreases v@.len() - i,
    {
        assert(sv.skip(i as int).drop_first() =~= sv.skip(i + 1));
        assert(sv.skip(i as int)[0] == sv[i as int]);
        if v[i].0 == id {
            return i + 1;
        }
        i += 1;
    }
    assert(sv.skip(i as int).len() == 0);
    0
}

impl App {
    /// The parents the form offers, but `exclude`.
    fn get_available_parents(&self, exclude_id: Option<TaskId>) -> (r: Vec<(TaskId, String)>)
        ensures
            pairs_view(r@) == available_parents(self@.active, exclude_id),
    {
        proof {
            self.lemma_view();
        }
        let filter = crate::model::filter::TaskFilter {
            status: None,
            priority: None,
            created_by: None,
            label: None,
            project: None,
            parent_id: None,
            include_done: false,
            include_cancelled: false,
        };
        assert(filter@ == view_filter(None, false));
        let all_tasks = match self.service.list_tasks(&filter) {
            Ok(t) => t,
            Err(_) => Vec::new(),
        };
        let ghost sv = tasks_view(all_tasks@);
        let mut candidates: Vec<(TaskId, String)> = Vec::new();
        let mut i: usize = 0;
        while i < all_tasks.len()
            invariant
                sv == tasks_view(all_tasks@),
                0 <= i <= all_tasks@.len(),
                pairs_view(candidates@) == parent_candidates(sv.take(i as int), exclude_id),
            decreases all_tasks@.len() - i,
        {
            assert(sv.take(i + 1).drop_last() =~= sv.take(i as int));
            assert(sv.take(i + 1).last() == sv[i as int]);
            let t = &all_tasks[i];
            let excluded = match exclude_id {
                Some(e) => e == t.id,
                None => false,
            };
            if t.parent_id.is_none() && !excluded {
                let ghost before = candidates@;
                candidates.push((t.id, t.title.clone()));
                assert(pairs_view(candidates@) =~= pairs_view(before).push((t.id, t.title@)));
            }
            i += 1;
        }
        assert(sv.take(sv.len() as int) =~= sv);
        let ghost unsorted = pairs_view(candidates@);
        let mut sorted: Vec<(TaskId, String)> = Vec::new();
        let mut j: usize = 0;
        while j < candidates.len()
            invariant
                unsorted == pairs_view(candidates@),
                0 <= j <= candidates@.len(),
                pairs_view(sorted@) == sorted_by_title(unsorted.take(j as int)),
            decreases candidates@.len() - j,
        {
            assert(unsorted.take(j + 1).drop_last() =~= unsorted.take(j as int));
            assert(unsorted.take(j + 1).last() == unsorted[j as int]);
            let item = (candidates[j].0, candidates[j].1.clone());
            insert_by_title(&mut sorted, item);
            j += 1;
        }
        assert(unsorted.take(unsorted.len() as int) =~= unsorted);
        sorted
    }

    /// The labels the form offers.
    fn get_available_labels(&self) -> (r: Vec<String>)
        ensures
            strings_view(r@) == available_labels(self@.active),
    {
        proof {
            self.lemma_view();
        }
        let filter = crate::model::filter::TaskFilter {
            status: None,
            priority: None,
            created_by: None,
            label: None,
            project: None,
            parent_id: None,
            include_done: true,
            include_cancelled: true,
        };
        assert(filter@ == view_filter(None, true));
        let mut labels: Vec<String> = Vec::new();
        labels.push(owned("bug"));
        labels.push(owned("feature"));
        labels.push(owned("improvement"));
        labels.push(owned("documentation"));
        labels.push(owned("refactor"));
        labels.push(owned("chore"));
        assert(strings_view(labels@) =~= form_builtin_labels());
        let all_tasks = match self.service.list_tasks(&filter) {
            Ok(t) => t,
            Err(_) => Vec::new(),
        };
        let ghost sv = tasks_view(all_tasks@);
        let mut i: usize = 0;
        while i < all_tasks.len()
            invariant
                sv == tasks_view(all_tasks@),
                0 <= i <= all_tasks@.len(),
                strings_view(labels@) == labels_with(form_builtin_labels(), sv.take(i as int)),
            decreases all_tasks@.len() - i,
        {
            assert(sv.take(i + 1).drop_last() =~= sv.take(i as int));
            assert(sv.take(i + 1).last() == sv[i as int]);
            if let Some(l) = &all_tasks[i].label {
                if !contains_label(&labels, l) {
                    let ghost before = labels@;
                    labels.push(l.clone());
                    assert(strings_view(labels@) =~= strings_view(before).push(l@));
                }
            }
            i += 1;
        }
        assert(sv.take(sv.len() as int) =~= sv);
        labels
    }
}



/// A position found in a sequence lies within it.
proof fn lemma_text_position_bound(s: Seq<Seq<char>>, x: Seq<char>)
    ensures
        -1 <= text_position(s, x) < s.len(),
    decreases s.len(),
{
    if s.len() > 0 && s[0] != x {
        lemma_text_position_bound(s.drop_first(), x);
    }
}

/// A position found in a sequence lies within it.
proof fn lemma_id_position_bound(s: Seq<(TaskId, Seq<char>)>, id: TaskId)
    ensures
        -1 <= id_position(s, id) < s.len(),
    decreases s.len(),
{
    if s.len() > 0 && s[0].0 != id {
        lemma_id_position_bound(s.drop_first(), id);
    }
}

/// The content edits keep the cursor row on an existing line.
proof fn lemma_content_rows(f: FormView, c: char)
    requires
        form_wf(f),
    ensures
        form_wf(content_typed(f, c)),
        form_wf(content_broken(f)),
        form_wf(content_erased(f)),
        form_wf(content_up(f)),
        form_wf(content_down(f)),
        form_wf(content_left(f)),
        form_wf(content_right(f)),
{
    let lines = lines_of(f.content);
    lemma_split_on_nonempty(f.content, '\n');
    let g = clamped_cursor(f);
    let line = lines[g.row as int];
    let l1 = lines.update(g.row as int, line.insert(g.col as int, c));
    lemma_split_joined_len(l1);
    let l2 = lines.update(g.row as int, line.take(g.col as int)).insert(
        g.row + 1,
        line.skip(g.col as int),
    );
    lemma_split_joined_len(l2);
    if g.col > 0 {
        lemma_split_joined_len(lines.update(g.row as int, line.remove(g.col - 1)));
    } else if g.row > 0 {
        lemma_split_joined_len(lines.remove(g.row as int).update(g.row - 1, lines[g.row - 1] + line));
    }
}

/// Title after typing `c`.
pub open spec fn title_typed(f: FormView, c: char) -> FormView {
    FormView {
        title: typed(f.title, f.title_cursor, c).0,
        title_cursor: typed(f.title, f.title_cursor, c).1 as usize,
        ..f
    }
}

/// Project after typing `c`.
pub open spec fn project_typed(f: FormView, c: char) -> FormView {
    FormView {
        project: typed(f.project, f.project_cursor, c).0,
        project_cursor: typed(f.project, f.project_cursor, c).1 as usize,
        ..f
    }
}

/// The form after Backspace.
pub open spec fn form_erased(f: FormView) -> FormView {
    if f.focused == 0 {
        FormView {
            title: erased(f.title, f.title_cursor).0,
            title_cursor: erased(f.title, f.title_cursor).1 as usize,
            ..f
        }
    } else if f.focused == 3 {
        FormView {
            project: erased(f.project, f.project_cursor).0,
            project_cursor: erased(f.project, f.project_cursor).1 as usize,
            ..f
        }
    } else if f.focused == 5 {
        content_erased(f)
    } else {
        f
    }
}

/// A one-line cursor moved left.
pub open spec fn cursor_left(cursor: usize) -> usize {
    if cursor > 0 {
        (cursor - 1) as usize
    } else {
        0
    }
}

/// A one-line cursor moved right, up to the end of the text.
pub open spec fn cursor_right(t: Seq<char>, cursor: usize) -> usize {
    if cursor < t.len() {
        (cursor + 1) as usize
    } else {
        cursor
    }
}

/// The form after Left.
pub open spec fn form_left(f: FormView) -> FormView {
    if f.focused == 0 {
        FormView { title_cursor: cursor_left(f.title_cursor), ..f }
    } else if f.focused == 3 {
        FormView { project_cursor: cursor_left(f.project_cursor), ..f }
    } else if f.focused == 5 {
        content_left(f)
    } else {
        selector_back(f)
    }
}

/// The form after Right.
pub open spec fn form_right(f: FormView) -> FormView {
    if f.focused == 0 {
        FormView { title_cursor: cursor_right(f.title, f.title_cursor), ..f }
    } else if f.focused == 3 {
        FormView { project_cursor: cursor_right(f.project, f.project_cursor), ..f }
    } else if f.focused == 5 {
        content_right(f)
    } else {
        selector_on(f)
    }
}

/// The form after typing `c` (without Ctrl).
pub open spec fn form_typed(f: FormView, c: char) -> FormView {
    if f.focused == 0 {
        title_typed(f, c)
    } else if f.focused == 3 {
        project_typed(f, c)
    } else if f.focused == 5 {
        content_typed(f, c)
    } else {
        f
    }
}

/// The form after a key that edits it: Tab and Shift+Tab move the focus
/// round the six fields, Ctrl+J in the content breaks the line, other keys
/// edit the focused field.
pub open spec fn form_edited(f: FormView, key: KeyInput) -> FormView {
    match key.code {
        Key::Tab => FormView { focused: ((f.focused + 1) % 6) as usize, ..f },
        Key::BackTab => FormView {
            focused: if f.focused == 0 {
                5
            } else {
                (f.focused - 1) as usize
            },
            ..f
        },
        Key::Backspace => form_erased(f),
        Key::Up => if f.focused == 5 {
            content_up(f)
        } else {
            f
        },
        Key::Down => if f.focused == 5 {
            content_down(f)
        } else {
            f
        },
        Key::Left => form_left(f),
        Key::Right => form_right(f),
        Key::Char(c) => if key.ctrl {
            if c == 'j' && f.focused == 5 {
                content_broken(f)
            } else {
                f
            }
        } else {
            form_typed(f, c)
        },
        _ => f,
    }
}

/// What a key does on the task form: Esc closes it, Enter saves it (Alt+Enter
/// in the content breaks the line instead), other keys edit the form.
pub open spec fn form_key_outcome(a0: AppView, a1: AppView, key: KeyInput, now: u64) -> bool {
    match a0.form {
        None => a1 == a0,
        Some(f) => match key.code {
            Key::Esc => a1 == (AppView { form: None, state: AppState::TaskList, ..a0 }),
            Key::Enter => if f.focused == 5 && key.alt {
                a1 == (AppView { form: Some(content_broken(f)), ..a0 })
            } else {
                form_saved(a0, a1, now)
            },
            Key::Other => a1 == a0,
            _ => a1 == (AppView { form: Some(form_edited(f, key)), ..a0 }),
        },
    }
}

/// Applies a key that edits the form.
pub fn edit_form_by_key(form: &mut TaskFormData, key: KeyInput)
    requires
        form_wf(old(form)@),
    ensures
        form_wf(final(form)@),
        final(form)@ == form_edited(old(form)@, key),
{
    let ghost f = form@;
    proof {
        let c = match key.code {
            Key::Char(ch) => ch,
            _ => 'a',
        };
        lemma_content_rows(f, c);
    }
    match key.code {
        Key::Tab => {
            form.focused_field = (form.focused_field + 1) % 6;
        },
        Key::BackTab => {
            if form.focused_field == 0 {
                form.focused_field = 5;
            } else {
                form.focused_field = form.focused_field - 1;
            }
        },
        Key::Backspace => {
            if form.focused_field == 0 {
                text_backspace(&mut form.title, &mut form.title_cursor);
            } else if form.focused_field == 3 {
                text_backspace(&mut form.project, &mut form.project_cursor);
            } else if form.focused_field == 5 {
                content_backspace(form);
            }
        },
        Key::Up => {
            if form.focused_field == 5 {
                content_move_up(form);
            }
        },
        Key::Down => {
            if form.focused_field == 5 {
                content_move_down(form);
            }
        },
        Key::Left => {
            if form.focused_field == 0 {
                text_move_left(form.title.as_str(), &mut form.title_cursor);
            } else if form.focused_field == 3 {
                text_move_left(form.project.as_str(), &mut form.project_cursor);
            } else if form.focused_field == 5 {
                content_move_left(form);
            } else {
                handle_selector_left(form);
            }
        },
        Key::Right => {
            if form.focused_field == 0 {
                let t = form.title.clone();
                text_move_right(t.as_str(), &mut form.title_cursor);
            } else if form.focused_field == 3 {
                let t = form.project.clone();
                text_move_right(t.as_str(), &mut form.project_cursor);
            } else if form.focused_field == 5 {
                content_move_right(form);
            } else {
                handle_selector_right(form);
            }
        },
        Key::Char(c) => {
            if key.ctrl {
                if c == 'j' && form.focused_field == 5 {
                    content_insert_newline(form);
                }
            } else if form.focused_field == 0 {
                text_insert_char(&mut form.title, &mut form.title_cursor, c);
            } else if form.focused_field == 3 {
                text_insert_char(&mut form.project, &mut form.project_cursor, c);
            } else if form.focused_field == 5 {
                content_insert_char(form, c);
            }
        },
        _ => {},
    }
}

impl App {
    /// `n`: opens the form for a new task.
    pub(crate) fn open_new_task_form(&mut self)
        requires
            app_wf(old(self)@),
        ensures
            app_marks(*old(self), *final(self)),
            app_wf(final(self)@),
            final(self)@ == (AppView {
                form: Some(new_form(old(self)@.active)),
                state: AppState::TaskForm,
                ..old(self)@
            }),
    {
        proof {
            self.lemma_view();
        }
        let labels = self.get_available_labels();
        let parents = self.get_available_parents(None);
        let form = TaskFormData {
            mode: FormMode::New,
            title: owned(""),
            title_cursor: 0,
            content: owned(""),
            content_cursor_row: 0,
            content_cursor_col: 0,
            priority_index: 0,
            label_index: 0,
            project: owned(""),
            project_cursor: 0,
            parent_index: 0,
            available_parents: parents,
            editing_task_id: None,
            focused_field: 0,
            available_labels: labels,
        };
        proof {
            reveal_strlit("");
            assert(form@.title =~= Seq::<char>::empty());
            assert(form@.content =~= Seq::<char>::empty());
            assert(form@.project =~= Seq::<char>::empty());
            assert(form@ == new_form(self@.active));
            assert(lines_of(Seq::<char>::empty()).len() == 1);
        }
        self.form = Some(form);
        self.state = AppState::TaskForm;
        proof {
            self.lemma_view();
        }
    }

    /// `e`: opens the form for editing the selected task.
    pub(crate) fn open_edit_form(&mut self)
        requires
            app_wf(old(self)@),
        ensures
            app_marks(*old(self), *final(self)),
            app_wf(final(self)@),
            final(self)@ == match selected_of(old(self)@) {
                Some(t) => AppView {
                    form: Some(edit_form(t, old(self)@.active)),
                    state: AppState::TaskForm,
                    ..old(self)@
                },
                None => old(self)@,
            },
    {
        proof {
            self.lemma_view();
        }
        if self.selected_index >= self.tasks.len() {
            return;
        }
        let task = self.tasks[self.selected_index].duplicate();
        let labels = self.get_available_labels();
        let parents = self.get_available_parents(Some(task.id));
        let priority_index = crate::model::order::priority_sort_value(&task.priority) as usize;
        let label_index = match &task.label {
            None => 0,
            Some(l) => position_of_text(&labels, l),
        };
        let parent_index = match task.parent_id {
            None => 0,
            Some(pid) => position_of_id(&parents, pid),
        };
        let content_text = match &task.content {
            Some(c) => c.clone(),
            None => owned(""),
        };
        let c_lines = content_lines(content_text.as_str());
        let last_row = c_lines.len() - 1;
        let last_col = char_count(&c_lines[last_row]);
        let title_len = char_count(&task.title);
        let project_text = match &task.project {
            Some(p) => p.clone(),
            None => owned(""),
        };
        let project_len = char_count(&project_text);
        proof {
            reveal_strlit("");
            assert(content_text@ == text_or_empty(task@.content));
            assert(project_text@ == text_or_empty(task@.project));
            match task@.label {
                Some(l) => lemma_text_position_bound(strings_view(labels@), l),
                None => {},
            }
            match task@.parent_id {
                Some(pid) => lemma_id_position_bound(pairs_view(parents@), pid),
                None => {},
            }
        }
        let form = TaskFormData {
            mode: FormMode::Edit,
            title: task.title.clone(),
            title_cursor: title_len,
            content: content_text,
            content_cursor_row: last_row,
            content_cursor_col: last_col,
            priority_index,
            label_index,
            project: project_text,
            project_cursor: project_len,
            parent_index,
            available_parents: parents,
            editing_task_id: Some(task.id),
            focused_field: 0,
            available_labels: labels,
        };
        assert(form@ == edit_form(task@, self@.active));
        self.form = Some(form);
        self.state = AppState::TaskForm;
        proof {
            self.lemma_view();
        }
    }

    /// `s`: opens the form for a subtask of the selected task (of its
    /// parent, when it is a subtask itself).
    pub(crate) fn open_subtask_form(&mut self)
        requires
            app_wf(old(self)@),
        ensures
            app_marks(*old(self), *final(self)),
            app_wf(final(self)@),
            final(self)@ == match selected_of(old(self)@) {
                Some(t) => AppView {
                    form: Some(subtask_form(t, old(self)@.active)),
                    state: AppState::TaskForm,
                    ..old(self)@
                },
                None => old(self)@,
            },
    {
        proof {
            self.lemma_view();
        }
        if self.selected_index >= self.tasks.len() {
            return;
        }
        let task = self.tasks[self.selected_index].duplicate();
        let actual_parent_id = match task.parent_id {
            Some(p) => p,
            None => task.id,
        };
        let labels = self.get_available_labels();
        let parents = self.get_available_parents(None);
        let parent_index = position_of_id(&parents, actual_parent_id);
        let project_text = match &task.project {
            Some(p) => p.clone(),
            None => owned(""),
        };
        proof {
            reveal_strlit("");
            lemma_id_position_bound(pairs_view(parents@), actual_parent_id);
            assert(lines_of(Seq::<char>::empty()).len() == 1);
        }
        let form = TaskFormData {
            mode: FormMode::Subtask,
            title: owned(""),
            title_cursor: 0,
            content: owned(""),
            content_cursor_row: 0,
            content_cursor_col: 0,
            priority_index: 0,
            label_index: 0,
            project: project_text,
            project_cursor: 0,
            parent_index,
            available_parents: parents,
            editing_task_id: None,
            focused_field: 0,
            available_labels: labels,
        };
        proof {
            assert(form@.title =~= Seq::<char>::empty());
            assert(form@.content =~= Seq::<char>::empty());
            assert(form@ == subtask_form(task@, self@.active));
        }
        self.form = Some(form);
        self.state = AppState::TaskForm;
        proof {
            self.lemma_view();
        }
    }
}


impl App {
    /// Saves the form: adds or edits the task it describes.
    pub(crate) fn save_form(&mut self, now: u64)
        requires
            app_wf(old(self)@),
        ensures
            app_marks(*old(self), *final(self)),
            app_wf(final(self)@),
            form_saved(old(self)@, final(self)@, now),
    {
        proof {
            self.lemma_view();
        }
        let ghost a0 = self@;
        let form = match self.form.take() {
            Some(f) => f,
            None => {
                proof {
                    self.lemma_view();
                }
                return;
            },
        };
        let ghost f = form@;
        let title = trim(form.title.as_str());
        if chars_of(title.as_str()).len() == 0 {
            self.form = Some(form);
            self.status_message = owned("Title cannot be empty");
            self.status_message_time = Some(now);
            proof {
                self.lemma_view();
            }
            return;
        }
        let priority = priority_choice(form.priority_index);
        let label = if form.label_index == 0 || form.label_index > form.available_labels.len() {
            None
        } else {
            Some(form.available_labels[form.label_index - 1].clone())
        };
        assert(opt_view(label) == form_label(f));
        let project = trimmed_or_none(&form.project);
        let content = trimmed_or_none(&form.content);
        let parent_id = form.selected_parent_id();
        if form.mode == FormMode::Edit && form.editing_task_id.is_none() {
            self.form = Some(form);
            self.status_message = owned("No task ID for edit");
            self.status_message_time = Some(now);
            self.state = AppState::TaskForm;
            proof {
                self.lemma_view();
            }
            return;
        }
        let result: Result<Task, AppError>;
        let ok_msg: String;
        let fail_msg: &str;
        if form.mode == FormMode::Edit {
            let id = form.editing_task_id.unwrap();
            let prefix = short_id_text(id);
            let parent_param = match parent_id {
                Some(pid) => short_id_text(pid),
                None => owned("none"),
            };
            assert(parent_param@ == parent_choice(f));
            result = self.service.edit_task(
                prefix.as_str(),
                Some(title),
                content,
                Some(priority),
                label,
                project,
                Some(parent_param),
                None,
            );
            ok_msg = owned("Task updated");
            fail_msg = "Failed to update task: ";
        } else {
            let parent_str = match parent_id {
                Some(pid) => Some(short_id_text(pid)),
                None => None,
            };
            assert(opt_view(parent_str) == parent_prefix(f));
            let has_parent = parent_str.is_some();
            result = self.service.add_task(
                title,
                content,
                priority,
                CreatedBy::Human,
                label,
                project,
                parent_str,
                Recurrence::Never,
            );
            ok_msg = if has_parent {
                owned("Subtask created")
            } else {
                owned("Task created")
            };
            fail_msg = "Failed to create task: ";
        }
        let ghost r = result;
        let ghost ok_v = ok_msg@;
        proof {
            self.lemma_view();
            assert(self@ == (AppView { active: self@.active, archived: self@.archived, form: None, ..a0 }));
        }
        match result {
            Ok(_) => {
                self.status_message = ok_msg;
                self.status_message_time = Some(now);
                self.state = AppState::TaskList;
                proof {
                    self.lemma_view();
                }
                self.reload_tasks();
            },
            Err(e) => {
                let m = e.message();
                self.form = Some(form);
                self.status_message = concat(fail_msg, m.as_str());
                self.status_message_time = Some(now);
                self.state = AppState::TaskForm;
                proof {
                    self.lemma_view();
                }
            },
        }
    }

    /// A key on the task form.
    pub(crate) fn handle_key_form(&mut self, key: KeyInput, now: u64)
        requires
            app_wf(old(self)@),
        ensures
            app_marks(*old(self), *final(self)),
            app_wf(final(self)@),
            form_key_outcome(old(self)@, final(self)@, key, now),
    {
        proof {
            self.lemma_view();
        }
        if self.form.is_none() {
            return;
        }
        match key.code {
            Key::Esc => {
                self.form = None;
                self.state = AppState::TaskList;
            },
            Key::Enter => {
                let focused = match &self.form {
                    Some(f) => f.focused_field,
                    None => 0,
                };
                if focused == 5 && key.alt {
                    let mut form = self.form.take().unwrap();
                    proof {
                        lemma_content_rows(form@, 'a');
                    }
                    content_insert_newline(&mut form);
                    self.form = Some(form);
                } else {
                    self.save_form(now);
                }
            },
            Key::Other => {},
            _ => {
                let mut form = self.form.take().unwrap();
                edit_form_by_key(&mut form, key);
                self.form = Some(form);
            },
        }
        proof {
            self.lemma_view();
        }
    }
}

/// Joining the lines of a content gives the content back.
pub proof fn law_content_lines_round_trip(content: Seq<char>)
    ensures
        lines_joined(lines_of(content)) == content,
{
    lemma_join_split(content);
}

/// Lines without line breaks, joined and split again, come back.
pub proof fn law_lines_content_round_trip(lines: Seq<Seq<char>>)
    requires
        lines.len() >= 1,
        forall|i: int| 0 <= i < lines.len() ==> !(#[trigger] lines[i]).contains('\n'),
    ensures
        lines_of(lines_joined(lines)) == lines,
{
    crate::text::lemma_split_join(lines);
}

/// Backspace undoes typing a character in a one-line field.
pub proof fn law_backspace_undoes_typing(t: Seq<char>, cursor: usize, c: char)
    requires
        cursor <= t.len(),
        t.len() < usize::MAX,
    ensures
        erased(typed(t, cursor, c).0, typed(t, cursor, c).1 as usize) == (t, cursor as int),
{
    assert(at_most(cursor, t.len()) == cursor);
    let t1 = t.insert(cursor as int, c);
    assert(typed(t, cursor, c).1 == cursor + 1);
    assert(at_most((cursor + 1) as usize, t1.len()) == cursor + 1);
    assert(t1.remove(cursor as int) =~= t);
}

/// Tab and BackTab undo each other on the task form, and six Tabs come back
/// to the field where they started; neither changes anything else.
pub proof fn law_tab_cycles_fields(f: FormView, ctrl: bool, alt: bool)
    requires
        form_wf(f),
    ensures
        form_edited(form_edited(f, (KeyInput { code: Key::Tab, ctrl, alt })), (KeyInput { code: Key::BackTab, ctrl, alt })) == f,
        form_edited(form_edited(f, (KeyInput { code: Key::BackTab, ctrl, alt })), (KeyInput { code: Key::Tab, ctrl, alt })) == f,
        ({
            let tab = KeyInput { code: Key::Tab, ctrl, alt };
            form_edited(form_edited(form_edited(form_edited(form_edited(form_edited(f, tab), tab), tab), tab), tab), tab) == f
        }),
{
}

/// Backspace in the content undoes typing a character other than a line
/// break there, and undoes breaking the line, where the cursor stands
/// within the content.
pub proof fn law_content_backspace_undoes(f: FormView, c: char)
    requires
        c != '\n',
        f.row < lines_of(f.content).len(),
        f.col <= lines_of(f.content)[f.row as int].len(),
        f.row < usize::MAX,
        f.col < usize::MAX,
    ensures
        content_erased(content_typed(f, c)) == f,
        content_erased(content_broken(f)) == f,
{
    let lines = lines_of(f.content);
    let r = f.row as int;
    let k = f.col as int;
    let line = lines[r];
    lemma_split_on_pieces(f.content, '\n');
    lemma_join_split(f.content);
    assert(clamped_cursor(f) == f);
    // Typing, then erasing.
    let typed_line = line.insert(k, c);
    let l1 = lines.update(r, typed_line);
    assert forall|i: int| 0 <= i < l1.len() implies !(#[trigger] l1[i]).contains('\n') by {
        if i != r {
            assert(l1[i] == lines[i]);
        } else if typed_line.contains('\n') {
            let j = choose|j: int| 0 <= j < typed_line.len() && typed_line[j] == '\n';
            if j < k {
                assert(line[j] == '\n');
            } else if j > k {
                assert(line[j - 1] == '\n');
            }
        }
    }
    lemma_split_join(l1);
    let f1 = content_typed(f, c);
    assert(lines_of(f1.content) == l1);
    assert(clamped_cursor(f1) == f1);
    assert(typed_line.remove(k) =~= line);
    assert(l1.update(r, typed_line.remove(k)) =~= lines);
    // Breaking, then erasing.
    let l2 = lines.update(r, line.take(k)).insert(r + 1, line.skip(k));
    assert forall|i: int| 0 <= i < l2.len() implies !(#[trigger] l2[i]).contains('\n') by {
        if i < r {
            assert(l2[i] == lines[i]);
        } else if i > r + 1 {
            assert(l2[i] == lines[i - 1]);
        } else if i == r {
            if line.take(k).contains('\n') {
                let j = choose|j: int| 0 <= j < line.take(k).len() && line.take(k)[j] == '\n';
                assert(line[j] == '\n');
            }
        } else {
            if line.skip(k).contains('\n') {
                let j = choose|j: int| 0 <= j < line.skip(k).len() && line.skip(k)[j] == '\n';
                assert(line[j + k] == '\n');
            }
        }
    }
    lemma_split_join(l2);
    let f2 = content_broken(f);
    assert(lines_of(f2.content) == l2);
    assert(clamped_cursor(f2) == f2);
    assert(l2[r] == line.take(k) && l2[r + 1] == line.skip(k));
    assert(line.take(k) + line.skip(k) =~= line);
    assert(l2.remove(r + 1).update(r, line.take(k) + line.skip(k)) =~= lines);
}

} // verus!
