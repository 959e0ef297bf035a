//! State of the terminal UI and the keys of the task list.

use vstd::prelude::*;

use crate::config::settings::Settings;
use crate::error::{error_text, AppError};
use crate::model::filter::{FilterView, TaskFilter};
use crate::model::task::{opt_view, short_id, short_id_text, status_text, tasks_view, Status, Task, TaskId, TaskView};
use crate::model::tree::{append_tasks};
use crate::service::task_service::{
    delete_outcome, marks_changes, status_outcome, tree_order, DeleteResult, StatusChangeResult,
    TaskService,
};
use crate::store::json_store::selected;
use crate::store::schema::TaskData;
use crate::text::{concat, number_text, owned, text_order, text_order_spec};

verus! {

/// Which screen has the keyboard.
#[derive(Debug, Clone, Copy, PartialEq, Eq, Structural)]
pub enum AppState {
    TaskList,
    TaskForm,
    DeleteConfirm,
}

/// What the task form is for.
#[derive(Debug, Clone, Copy, PartialEq, Eq, Structural)]
pub enum FormMode {
    New,
    Edit,
    Subtask,
}

/// A key, as far as the UI tells keys apart.
#[derive(Debug, Clone, Copy, PartialEq, Eq, Structural)]
pub enum Key {
    Char(char),
    Up,
    Down,
    Left,
    Right,
    Enter,
    Esc,
    Tab,
    BackTab,
    Backspace,
    Other,
}

/// A key press with its modifiers.
#[derive(Debug, Clone, Copy, PartialEq, Eq, Structural)]
pub struct KeyInput {
    pub code: Key,
    pub ctrl: bool,
    pub alt: bool,
}

/// The contents of the task form. Fields by focus index: 0 title,
/// 1 priority, 2 label, 3 project, 4 parent, 5 content.
#[derive(Debug)]
pub struct TaskFormData {
    pub mode: FormMode,
    pub title: String,
    pub title_cursor: usize,
    pub content: String,
    pub content_cursor_row: usize,
    pub content_cursor_col: usize,
    pub priority_index: usize,
    /// 0 is no label, `i` the label `available_labels[i - 1]`.
    pub label_index: usize,
    pub project: String,
    pub project_cursor: usize,
    /// 0 is no parent, `i` the task `available_parents[i - 1]`.
    pub parent_index: usize,
    pub available_parents: Vec<(TaskId, String)>,
    pub editing_task_id: Option<TaskId>,
    pub focused_field: usize,
    pub available_labels: Vec<String>,
}

/// Mathematical model of the task form.
pub struct FormView {
    pub mode: FormMode,
    pub title: Seq<char>,
    pub title_cursor: usize,
    pub content: Seq<char>,
    pub row: usize,
    pub col: usize,
    pub priority_index: usize,
    pub label_index: usize,
    pub project: Seq<char>,
    pub project_cursor: usize,
    pub parent_index: usize,
    pub parents: Seq<(TaskId, Seq<char>)>,
    pub editing: Option<TaskId>,
    pub focused: usize,
    pub labels: Seq<Seq<char>>,
}

/// Models of (identifier, title) pairs.
pub open spec fn pairs_view(v: Seq<(TaskId, String)>) -> Seq<(TaskId, Seq<char>)> {
    v.map_values(|p: (TaskId, String)| (p.0, p.1@))
}

impl View for TaskFormData {
    type V = FormView;

    open spec fn view(&self) -> FormView {
        FormView {
            mode: self.mode,
            title: self.title@,
            title_cursor: self.title_cursor,
            content: self.content@,
            row: self.content_cursor_row,
            col: self.content_cursor_col,
            priority_index: self.priority_index,
            label_index: self.label_index,
            project: self.project@,
            project_cursor: self.project_cursor,
            parent_index: self.parent_index,
            parents: pairs_view(self.available_parents@),
            editing: self.editing_task_id,
            focused: self.focused_field,
            labels: crate::text::strings_view(self.available_labels@),
        }
    }
}

/// Model of an optional form.
pub open spec fn opt_form_view(o: Option<TaskFormData>) -> Option<FormView> {
    match o {
        Some(f) => Some(f@),
        None => None,
    }
}

/// The parent that the form's parent selector names.
pub open spec fn form_parent(f: FormView) -> Option<TaskId> {
    if f.parent_index == 0 || f.parent_index > f.parents.len() {
        None
    } else {
        Some(f.parents[f.parent_index - 1].0)
    }
}

impl TaskFormData {
    /// The identifier of the selected parent (none for index 0).
    pub fn selected_parent_id(&self) -> (r: Option<TaskId>)
        ensures
            r == form_parent(self@),
    {
        if self.parent_index == 0 || self.parent_index > self.available_parents.len() {
            None
        } else {
            Some(self.available_parents[self.parent_index - 1].0)
        }
    }
}

/// What a key did to the program as a whole.
#[derive(Debug)]
pub struct KeyResult {
    pub should_quit: bool,
}

/// State of the terminal UI.
pub struct App {
    pub(crate) service: TaskService,
    pub(crate) state: AppState,
    pub(crate) tasks: Vec<Task>,
    pub(crate) selected_index: usize,
    pub(crate) project_tabs: Vec<Option<String>>,
    pub(crate) current_tab: usize,
    pub(crate) show_completed: bool,
    pub(crate) status_message: String,
    pub(crate) status_message_time: Option<u64>,
    pub(crate) last_mtime: Option<u128>,
    pub(crate) form: Option<TaskFormData>,
    pub(crate) delete_target: Option<Task>,
}

/// Mathematical model of the UI state.
pub struct AppView {
    pub active: Seq<TaskView>,
    pub archived: Seq<TaskView>,
    pub config: Settings,
    pub state: AppState,
    pub tasks: Seq<TaskView>,
    pub selected_index: usize,
    pub project_tabs: Seq<Option<Seq<char>>>,
    pub current_tab: usize,
    pub show_completed: bool,
    pub status_message: Seq<char>,
    pub status_time: Option<u64>,
    pub last_mtime: Option<u128>,
    pub form: Option<FormView>,
    pub delete_target: Option<TaskView>,
}

/// Models of optional texts.
pub open spec fn opt_texts_view(v: Seq<Option<String>>) -> Seq<Option<Seq<char>>> {
    v.map_values(|o: Option<String>| opt_view(o))
}

/// Model of an optional task.
pub open spec fn opt_task_view(o: Option<Task>) -> Option<TaskView> {
    match o {
        Some(t) => Some(t@),
        None => None,
    }
}

impl View for App {
    type V = AppView;

    closed spec fn view(&self) -> AppView {
        AppView {
            active: self.service.active(),
            archived: self.service.archived(),
            config: self.service.config(),
            state: self.state,
            tasks: tasks_view(self.tasks@),
            selected_index: self.selected_index,
            project_tabs: opt_texts_view(self.project_tabs@),
            current_tab: self.current_tab,
            show_completed: self.show_completed,
            status_message: self.status_message@,
            status_time: self.status_message_time,
            last_mtime: self.last_mtime,
            form: opt_form_view(self.form),
            delete_target: opt_task_view(self.delete_target),
        }
    }
}

/// Number of priorities offered by the form.
pub open spec fn priority_count() -> nat {
    5
}

/// The form's indices and cursors are in range.
pub open spec fn form_wf(f: FormView) -> bool {
    &&& f.priority_index < priority_count()
    &&& f.label_index <= f.labels.len()
    &&& f.parent_index <= f.parents.len()
    &&& f.focused < 6
    &&& f.title_cursor <= f.title.len()
    &&& f.project_cursor <= f.project.len()
    &&& f.row < crate::text::split_on(f.content, '\n').len()
}

/// The UI state is consistent: there is always the "all projects" tab and
/// the current tab exists, the selection is within the list (or 0 on an
/// empty list), and an open form is consistent.
pub open spec fn app_wf(a: AppView) -> bool {
    &&& a.project_tabs.len() >= 1
    &&& a.current_tab < a.project_tabs.len()
    &&& (a.selected_index == 0 || a.selected_index < a.tasks.len())
    &&& (a.form matches Some(f) ==> form_wf(f))
}

/// A filter that sets only a project and whether finished tasks count.
pub open spec fn view_filter(project: Option<Seq<char>>, finished: bool) -> FilterView {
    FilterView {
        status: None,
        priority: None,
        created_by: None,
        label: None,
        project,
        parent_id: None,
        include_done: finished,
        include_cancelled: finished,
    }
}

/// The project of the current tab (none for the "all projects" tab).
pub open spec fn current_project(a: AppView) -> Option<Seq<char>> {
    if a.current_tab < a.project_tabs.len() {
        a.project_tabs[a.current_tab as int]
    } else {
        None
    }
}

/// What the list shows: the active tasks of the project in tree order, then,
/// when finished tasks are shown, the archived tasks of the project.
pub open spec fn visible_tasks(
    active: Seq<TaskView>,
    archived: Seq<TaskView>,
    project: Option<Seq<char>>,
    show_completed: bool,
) -> Seq<TaskView> {
    tree_order(selected(active, view_filter(project, show_completed))) + if show_completed {
        selected(archived, view_filter(project, true))
    } else {
        Seq::empty()
    }
}

/// The projects of the tasks, each once, in order of first appearance.
pub open spec fn first_projects(s: Seq<TaskView>) -> Seq<Seq<char>>
    decreases s.len(),
{
    if s.len() == 0 {
        Seq::empty()
    } else {
        let r = first_projects(s.drop_last());
        match s.last().project {
            Some(p) => if r.contains(p) {
                r
            } else {
                r.push(p)
            },
            None => r,
        }
    }
}

/// Where a stable insertion puts the text `x` into `s`.
pub open spec fn text_insert_pos(s: Seq<Seq<char>>, x: Seq<char>) -> int
    decreases s.len(),
{
    if s.len() == 0 {
        0
    } else if text_order_spec(s[0], x) > 0 {
        0
    } else {
        1 + text_insert_pos(s.drop_first(), x)
    }
}

/// `s` sorted stably in text order.
pub open spec fn sorted_texts(s: Seq<Seq<char>>) -> Seq<Seq<char>>
    decreases s.len(),
{
    if s.len() == 0 {
        s
    } else {
        let r = sorted_texts(s.drop_last());
        r.insert(text_insert_pos(r, s.last()), s.last())
    }
}

/// The project tabs: "all projects", then each project of the active tasks
/// in text order.
pub open spec fn tabs_of(active: Seq<TaskView>) -> Seq<Option<Seq<char>>> {
    seq![None] + sorted_texts(first_projects(selected(active, view_filter(None, true)))).map_values(
        |p: Seq<char>| Some(p),
    )
}

/// The selection kept within a list of `n` tasks.
pub open spec fn clamped(i: usize, n: nat) -> usize {
    if n == 0 {
        0
    } else if i >= n {
        (n - 1) as usize
    } else {
        i
    }
}

/// The UI state after the list and the tabs are read again from the
/// service: the list of the current tab (as it was before the tabs changed),
/// the selection kept in range, the tabs recomputed and the current tab
/// reset to "all projects" if it no longer exists.
pub open spec fn after_reload(a: AppView) -> AppView {
    let tasks = visible_tasks(a.active, a.archived, current_project(a), a.show_completed);
    let tabs = tabs_of(a.active);
    AppView {
        tasks,
        selected_index: clamped(a.selected_index, tasks.len()),
        project_tabs: tabs,
        current_tab: if a.current_tab < tabs.len() {
            a.current_tab
        } else {
            0
        },
        ..a
    }
}

/// Time after which a status message goes away, in milliseconds.
pub open spec fn message_lifetime() -> u64 {
    5000
}

/// The UI state at time `now`: a status message older than its lifetime is
/// gone.
pub open spec fn expired(a: AppView, now: u64) -> AppView {
    match a.status_time {
        Some(t) => if now >= t && now - t >= message_lifetime() {
            AppView { status_message: Seq::empty(), status_time: None, ..a }
        } else {
            a
        },
        None => a,
    }
}


/// The selected task, if the selection is within the list.
pub open spec fn selected_of(a: AppView) -> Option<TaskView> {
    if a.selected_index < a.tasks.len() {
        Some(a.tasks[a.selected_index as int])
    } else {
        None
    }
}

/// The UI state with a new status message, shown from `now`.
pub open spec fn with_message(a: AppView, msg: Seq<char>, now: u64) -> AppView {
    AppView { status_message: msg, status_time: Some(now), ..a }
}

/// The UI state with the service's tasks replaced.
pub open spec fn with_tasks(a: AppView, active: Seq<TaskView>, archived: Seq<TaskView>) -> AppView {
    AppView { active, archived, ..a }
}

/// The status that the space key moves a task to.
pub open spec fn next_status_of(s: Status) -> Status {
    match s {
        Status::Todo => Status::InProgress,
        Status::InProgress => Status::Done,
        Status::Done => Status::Todo,
        Status::Cancelled => Status::Todo,
    }
}

/// How far along the workflow a status is: to do, then in progress, then
/// finished (done or cancelled).
pub open spec fn workflow_step(s: Status) -> int {
    match s {
        Status::Todo => 0,
        Status::InProgress => 1,
        Status::Done => 2,
        Status::Cancelled => 2,
    }
}

/// The space key moves an unfinished task one step along the workflow (to
/// do, in progress, done) and reopens a done or cancelled task as to do, so
/// three presses bring a task back where it started; `x` cancels a task
/// whatever its status.
pub proof fn law_status_keys(s: Status)
    ensures
        !crate::service::task_service::finished(s) ==> workflow_step(key_status(s, false))
            == workflow_step(s) + 1 && key_status(s, false) != Status::Cancelled,
        crate::service::task_service::finished(s) ==> key_status(s, false) == Status::Todo,
        key_status(key_status(key_status(s, false), false), false) == s || crate::service::task_service::finished(
            s,
        ),
        key_status(s, true) == Status::Cancelled,
{
}

/// The note on tasks moved to the archive.
pub open spec fn archived_note(n: usize) -> Seq<char> {
    if n > 0 {
        "サブタスク"@ + crate::text::decimal_text(n as nat) + "件と共にアーカイブしました"@
    } else {
        "アーカイブしました"@
    }
}

/// The status a key moves a task to: cancelled for `x`, the next status for
/// the space key.
pub open spec fn key_status(s: Status, cancel: bool) -> Status {
    if cancel {
        Status::Cancelled
    } else {
        next_status_of(s)
    }
}

/// The UI state after the outcome of a status change by the space key.
pub open spec fn toggle_note(a: AppView, r: Result<StatusChangeResult, AppError>, now: u64) -> AppView {
    match r {
        Ok(res) => if res.archived {
            with_message(a, archived_note(res.archived_subtasks), now)
        } else {
            a
        },
        Err(e) => with_message(a, "Status change failed: "@ + error_text(e), now),
    }
}

/// The UI state after the outcome of cancelling the task `t`.
pub open spec fn cancel_note(a: AppView, t: TaskView, r: Result<StatusChangeResult, AppError>, now: u64) -> AppView {
    match r {
        Ok(res) => with_message(
            a,
            "Cancelled '"@ + t.title + "'"@ + if res.archived {
                " | "@ + archived_note(res.archived_subtasks)
            } else {
                Seq::empty()
            },
            now,
        ),
        Err(e) => with_message(a, "Cancel failed: "@ + error_text(e), now),
    }
}

/// The status change that a key asks for on the selected task, moving it
/// (looked up by the first eight characters of its identifier) to `new`:
/// the outcome is reported, then the list is read again.
pub open spec fn status_changed_by_key(a0: AppView, a1: AppView, now: u64, cancel: bool) -> bool {
    match selected_of(a0) {
        None => a1 == a0,
        Some(t) => exists|r: Result<StatusChangeResult, AppError>|
            #![trigger status_outcome(a0.active, a0.archived, a1.active, a1.archived, short_id(t.id), status_text(key_status(t.status, cancel)), r)]
            status_outcome(
                a0.active,
                a0.archived,
                a1.active,
                a1.archived,
                short_id(t.id),
                status_text(key_status(t.status, cancel)),
                r,
            ) && a1 == after_reload(
                if cancel {
                    cancel_note(with_tasks(a0, a1.active, a1.archived), t, r, now)
                } else {
                    toggle_note(with_tasks(a0, a1.active, a1.archived), r, now)
                },
            ),
    }
}

/// The UI state after the outcome of deleting the task `t`.
pub open spec fn delete_note(a: AppView, r: Result<DeleteResult, AppError>, now: u64) -> AppView {
    match r {
        Ok(d) => with_message(
            a,
            if d.deleted_subtasks > 0 {
                "Deleted '"@ + d.task@.title + "' and "@ + crate::text::decimal_text(
                    d.deleted_subtasks as nat,
                ) + " subtask(s)"@
            } else {
                "Deleted '"@ + d.task@.title + "'"@
            },
            now,
        ),
        Err(e) => with_message(a, "Delete failed: "@ + error_text(e), now),
    }
}

/// Confirming a deletion: the task awaiting deletion (looked up by the first
/// eight characters of its identifier) is deleted with its subtasks, the
/// outcome reported, and the list shown again.
pub open spec fn deletion_confirmed(a0: AppView, a1: AppView, now: u64) -> bool {
    let back = |a: AppView| AppView { delete_target: None, state: AppState::TaskList, ..a };
    match a0.delete_target {
        None => a1 == after_reload(back(a0)),
        Some(t) => exists|r: Result<DeleteResult, AppError>|
            #![trigger delete_outcome(a0.active, a1.active, short_id(t.id), r)]
            delete_outcome(a0.active, a1.active, short_id(t.id), r) && a1 == after_reload(
                back(delete_note(with_tasks(a0, a1.active, a0.archived), r, now)),
            ),
    }
}

/// The tab to the left, wrapping around.
pub open spec fn tab_left(a: AppView) -> usize {
    if a.current_tab > 0 {
        (a.current_tab - 1) as usize
    } else {
        (a.project_tabs.len() - 1) as usize
    }
}

/// The tab to the right, wrapping around.
pub open spec fn tab_right(a: AppView) -> usize {
    if a.current_tab + 1 < a.project_tabs.len() {
        (a.current_tab + 1) as usize
    } else {
        0
    }
}

/// What a key does on the delete confirmation: `y` deletes, `n` or Esc
/// goes back to the list, other keys do nothing.
pub open spec fn delete_key_outcome(a0: AppView, a1: AppView, key: KeyInput, now: u64) -> bool {
    match key.code {
        Key::Char('y') => deletion_confirmed(a0, a1, now),
        Key::Char('n') | Key::Esc => a1 == (AppView {
            delete_target: None,
            state: AppState::TaskList,
            ..a0
        }),
        _ => a1 == a0,
    }
}


/// What a key does on the task list.
pub open spec fn list_key_outcome(a0: AppView, a1: AppView, key: KeyInput, now: u64) -> bool {
    match key.code {
        Key::Char('q') => a1 == a0,
        Key::Char('j') | Key::Down => a1 == (AppView {
            selected_index: if a0.tasks.len() > 0 && a0.selected_index + 1 < a0.tasks.len() {
                (a0.selected_index + 1) as usize
            } else {
                a0.selected_index
            },
            ..a0
        }),
        Key::Char('k') | Key::Up => a1 == (AppView {
            selected_index: if a0.selected_index > 0 {
                (a0.selected_index - 1) as usize
            } else {
                0
            },
            ..a0
        }),
        Key::Char('h') | Key::Left => a1 == after_reload(
            AppView { current_tab: tab_left(a0), selected_index: 0, ..a0 },
        ),
        Key::Char('l') | Key::Right => a1 == after_reload(
            AppView { current_tab: tab_right(a0), selected_index: 0, ..a0 },
        ),
        Key::Char('c') => a1 == after_reload(AppView { show_completed: !a0.show_completed, ..a0 }),
        Key::Char('n') => a1 == (AppView {
            form: Some(crate::tui::form::new_form(a0.active)),
            state: AppState::TaskForm,
            ..a0
        }),
        Key::Char('e') => a1 == match selected_of(a0) {
            Some(t) => AppView {
                form: Some(crate::tui::form::edit_form(t, a0.active)),
                state: AppState::TaskForm,
                ..a0
            },
            None => a0,
        },
        Key::Char('s') => a1 == match selected_of(a0) {
            Some(t) => AppView {
                form: Some(crate::tui::form::subtask_form(t, a0.active)),
                state: AppState::TaskForm,
                ..a0
            },
            None => a0,
        },
        Key::Char(' ') => status_changed_by_key(a0, a1, now, false),
        Key::Char('x') => status_changed_by_key(a0, a1, now, true),
        Key::Char('d') => a1 == match selected_of(a0) {
            Some(t) => AppView { delete_target: Some(t), state: AppState::DeleteConfirm, ..a0 },
            None => a0,
        },
        Key::Esc => a1 == (AppView { status_message: Seq::empty(), status_time: None, ..a0 }),
        _ => a1 == a0,
    }
}

/// What a key does at time `now`: an old status message goes away first,
/// then the screen that has the keyboard handles the key. Only `q` on the
/// task list quits.
pub open spec fn key_outcome(a0: AppView, a1: AppView, key: KeyInput, now: u64) -> bool {
    let a = expired(a0, now);
    match a.state {
        AppState::TaskList => list_key_outcome(a, a1, key, now),
        AppState::TaskForm => crate::tui::form::form_key_outcome(a, a1, key, now),
        AppState::DeleteConfirm => delete_key_outcome(a, a1, key, now),
    }
}


/// The title of the first task of `s` with identifier `id`, if any.
pub open spec fn first_title_with_id(s: Seq<TaskView>, id: TaskId) -> Option<Seq<char>>
    decreases s.len(),
{
    if s.len() == 0 {
        None
    } else if s[0].id == id {
        Some(s[0].title)
    } else {
        first_title_with_id(s.drop_first(), id)
    }
}

/// The title shown for a subtask's parent: that of the first listed task
/// with its identifier, else that of the active task found by the first
/// eight characters of the identifier, else `Unknown`.
pub open spec fn parent_title_of(a: AppView, parent_id: TaskId) -> Seq<char> {
    match first_title_with_id(a.tasks, parent_id) {
        Some(t) => t,
        None => match crate::service::task_service::lookup(a.active, short_id(parent_id)) {
            crate::service::task_service::Lookup::Found(p) => p.title,
            _ => "Unknown"@,
        },
    }
}

fn insert_text_sorted(v: &mut Vec<String>, x: String)
    ensures
        crate::text::strings_view(final(v)@) == crate::text::strings_view(old(v)@).insert(
            text_insert_pos(crate::text::strings_view(old(v)@), x@),
            x@,
        ),
{
    let ghost sv = crate::text::strings_view(v@);
    let mut k: usize = 0;
    while k < v.len() && text_order(v[k].as_str(), x.as_str()) <= 0
        invariant
            sv == crate::text::strings_view(v@),
            0 <= k <= v@.len(),
            forall|j: int| 0 <= j < k ==> text_order_spec(#[trigger] sv[j], x@) <= 0,
        decreases v@.len() - k,
    {
        k += 1;
    }
    proof {
        lemma_text_insert_pos(sv, x@, k as int);
    }
    let ghost xv = x@;
    v.insert(k, x);
    assert(crate::text::strings_view(v@) =~= sv.insert(k as int, xv));
}

proof fn lemma_text_insert_pos(s: Seq<Seq<char>>, x: Seq<char>, k: int)
    requires
        0 <= k <= s.len(),
        forall|j: int| 0 <= j < k ==> text_order_spec(#[trigger] s[j], x) <= 0,
        k < s.len() ==> text_order_spec(s[k], x) > 0,
    ensures
        text_insert_pos(s, x) == k,
    decreases k,
{
    if k > 0 {
        assert forall|j: int| 0 <= j < k - 1 implies text_order_spec(
            #[trigger] s.drop_first()[j],
            x,
        ) <= 0 by {
            assert(s.drop_first()[j] == s[j + 1]);
        }
        assert(text_order_spec(s[0], x) <= 0);
        lemma_text_insert_pos(s.drop_first(), x, k - 1);
    }
}

/// Every change to the active or archived tasks from `a0` to `a1` is marked
/// for writing back, and what was marked stays marked.
pub open spec fn app_marks(a0: App, a1: App) -> bool {
    &&& (a0.active_pending() ==> a1.active_pending())
    &&& (a0.archive_pending() ==> a1.archive_pending())
    &&& (a1@.active != a0@.active ==> a1.active_pending())
    &&& (a1@.archived != a0@.archived ==> a1.archive_pending())
    &&& a1.versions() == a0.versions()
}

impl App {
    /// The active tasks changed since they were last written back.
    pub closed spec fn active_pending(&self) -> bool {
        self.service.active_pending()
    }

    /// The archived tasks changed since they were last written back.
    pub closed spec fn archive_pending(&self) -> bool {
        self.service.archive_pending()
    }

    /// The format versions of the active and the archived task lists.
    pub closed spec fn versions(&self) -> (u32, u32) {
        self.service.versions()
    }
}

impl App {
    /// What the model of the UI state is made of.
    pub(crate) proof fn lemma_view(&self)
        ensures
            self.active_pending() == self.service.active_pending(),
            self.archive_pending() == self.service.archive_pending(),
            self.versions() == self.service.versions(),
            self@ == (AppView {
                active: self.service.active(),
                archived: self.service.archived(),
                config: self.service.config(),
                state: self.state,
                tasks: tasks_view(self.tasks@),
                selected_index: self.selected_index,
                project_tabs: opt_texts_view(self.project_tabs@),
                current_tab: self.current_tab,
                show_completed: self.show_completed,
                status_message: self.status_message@,
                status_time: self.status_message_time,
                last_mtime: self.last_mtime,
                form: opt_form_view(self.form),
                delete_target: opt_task_view(self.delete_target),
            }),
    {
    }
}

impl App {
    /// The UI state over a service: the task list of all projects, without
    /// finished tasks. `mtime` is the time the data files were last changed.
    pub fn new(service: TaskService, mtime: Option<u128>) -> (r: App)
        ensures
            app_wf(r@),
            r@ == after_reload(
                AppView {
                    active: service.active(),
                    archived: service.archived(),
                    config: service.config(),
                    state: AppState::TaskList,
                    tasks: Seq::empty(),
                    selected_index: 0,
                    project_tabs: seq![None],
                    current_tab: 0,
                    show_completed: false,
                    status_message: Seq::empty(),
                    status_time: None,
                    last_mtime: mtime,
                    form: None,
                    delete_target: None,
                },
            ),
    {
        let mut tabs: Vec<Option<String>> = Vec::new();
        tabs.push(None);
        let mut app = App {
            service,
            state: AppState::TaskList,
            tasks: Vec::new(),
            selected_index: 0,
            project_tabs: tabs,
            current_tab: 0,
            show_completed: false,
            status_message: owned(""),
            status_message_time: None,
            last_mtime: mtime,
            form: None,
            delete_target: None,
        };
        proof {
            reveal_strlit("");
            assert(app@.project_tabs =~= seq![None]);
            assert(app@.tasks =~= Seq::<TaskView>::empty());
            assert(app@.status_message =~= Seq::<char>::empty());
        }
        app.reload_tasks();
        app
    }

    /// Which screen has the keyboard.
    pub fn state(&self) -> (r: &AppState)
        ensures
            *r == self@.state,
    {
        &self.state
    }

    /// Position of the selection in the list.
    pub fn selected_index(&self) -> (r: usize)
        ensures
            r == self@.selected_index,
    {
        self.selected_index
    }

    /// Number of tasks in the list.
    pub fn visible_task_count(&self) -> (r: usize)
        ensures
            r == self@.tasks.len(),
    {
        self.tasks.len()
    }

    /// The selected task, if the list is not empty.
    pub fn selected_task(&self) -> (r: Option<&Task>)
        ensures
            match r {
                Some(t) => self@.selected_index < self@.tasks.len() && t@ == self@.tasks[self@.selected_index as int],
                None => self@.selected_index >= self@.tasks.len(),
            },
    {
        if self.selected_index < self.tasks.len() {
            Some(&self.tasks[self.selected_index])
        } else {
            None
        }
    }

    /// The project of the current tab (none for "all projects").
    pub fn current_project_filter(&self) -> (r: Option<&str>)
        ensures
            match r {
                Some(p) => current_project(self@) == Some(p@),
                None => current_project(self@) is None,
            },
    {
        if self.current_tab < self.project_tabs.len() {
            match &self.project_tabs[self.current_tab] {
                Some(p) => Some(p.as_str()),
                None => None,
            }
        } else {
            None
        }
    }

    /// The status message.
    pub fn status_message(&self) -> (r: &str)
        ensures
            r@ == self@.status_message,
    {
        self.status_message.as_str()
    }

    /// The parent selected in the open form, if any.
    pub fn form_parent_id(&self) -> (r: Option<TaskId>)
        ensures
            r == match self@.form {
                Some(f) => form_parent(f),
                None => None,
            },
    {
        match &self.form {
            Some(f) => f.selected_parent_id(),
            None => None,
        }
    }

    /// The tasks of the list.
    pub fn tasks(&self) -> (r: &[Task])
        ensures
            tasks_view(r@) == self@.tasks,
    {
        self.tasks.as_slice()
    }

    /// The project tabs: none for "all projects", then project names.
    pub fn project_tabs(&self) -> (r: &[Option<String>])
        ensures
            opt_texts_view(r@) == self@.project_tabs,
    {
        self.project_tabs.as_slice()
    }

    /// Position of the current tab.
    pub fn current_tab(&self) -> (r: usize)
        ensures
            r == self@.current_tab,
    {
        self.current_tab
    }

    /// Finished tasks are shown.
    pub fn show_completed(&self) -> (r: bool)
        ensures
            r == self@.show_completed,
    {
        self.show_completed
    }

    /// The open form, if any.
    pub fn form(&self) -> (r: Option<&TaskFormData>)
        ensures
            match r {
                Some(f) => self@.form == Some(f@),
                None => self@.form is None,
            },
    {
        match &self.form {
            Some(f) => Some(f),
            None => None,
        }
    }

    /// The task whose deletion awaits confirmation, if any.
    pub fn delete_target(&self) -> (r: Option<&Task>)
        ensures
            match r {
                Some(t) => self@.delete_target == Some(t@),
                None => self@.delete_target is None,
            },
    {
        match &self.delete_target {
            Some(t) => Some(t),
            None => None,
        }
    }

    /// The service, for the detail panel.
    pub fn service(&self) -> (r: &TaskService)
        ensures
            r.active() == self@.active,
            r.archived() == self@.archived,
            r.config() == self@.config,
    {
        &self.service
    }

    /// Reads the list and the tabs again from the service.
    pub fn reload_tasks(&mut self)
        requires
            old(self)@.project_tabs.len() >= 1,
        ensures
            final(self).active_pending() == old(self).active_pending(),
            final(self).archive_pending() == old(self).archive_pending(),
            app_marks(*old(self), *final(self)),
            final(self)@ == after_reload(old(self)@),
            app_wf(old(self)@) ==> app_wf(final(self)@),
            final(self)@.project_tabs.len() >= 1,
            final(self)@.current_tab < final(self)@.project_tabs.len(),
            final(self)@.selected_index == 0 || final(self)@.selected_index < final(self)@.tasks.len(),
    {
        let ghost a0 = self@;
        let project = match self.current_project_filter() {
            Some(p) => Some(owned(p)),
            None => None,
        };
        let project_again = match &project {
            Some(p) => Some(p.clone()),
            None => None,
        };
        let filter = TaskFilter {
            status: None,
            priority: None,
            created_by: None,
            label: None,
            project,
            parent_id: None,
            include_done: self.show_completed,
            include_cancelled: self.show_completed,
        };
        assert(filter@ == view_filter(current_project(a0), a0.show_completed));
        let mut tasks = match self.service.list_tasks_tree(&filter) {
            Ok(t) => t,
            Err(_) => Vec::new(),
        };
        if self.show_completed {
            let archive_filter = TaskFilter {
                status: None,
                priority: None,
                created_by: None,
                label: None,
                project: project_again,
                parent_id: None,
                include_done: true,
                include_cancelled: true,
            };
            assert(archive_filter@ == view_filter(current_project(a0), true));
            match self.service.list_archive(&archive_filter) {
                Ok(archived) => append_tasks(&mut tasks, &archived),
                Err(_) => {},
            }
        } else {
            assert(tasks_view(tasks@) =~= tasks_view(tasks@) + Seq::<TaskView>::empty());
        }
        self.tasks = tasks;
        if self.tasks.len() > 0 && self.selected_index >= self.tasks.len() {
            self.selected_index = self.tasks.len() - 1;
        }
        if self.tasks.len() == 0 {
            self.selected_index = 0;
        }
        self.update_project_tabs();
    }

    fn update_project_tabs(&mut self)
        ensures
            final(self).active_pending() == old(self).active_pending(),
            final(self).archive_pending() == old(self).archive_pending(),
            app_marks(*old(self), *final(self)),
            final(self)@ == (AppView {
                project_tabs: tabs_of(old(self)@.active),
                current_tab: if old(self)@.current_tab < tabs_of(old(self)@.active).len() {
                    old(self)@.current_tab
                } else {
                    0
                },
                ..old(self)@
            }),
            final(self)@.project_tabs.len() >= 1,
            final(self)@.current_tab < final(self)@.project_tabs.len(),
    {
        let all_filter = TaskFilter {
            status: None,
            priority: None,
            created_by: None,
            label: None,
            project: None,
            parent_id: None,
            include_done: true,
            include_cancelled: true,
        };
        assert(all_filter@ == view_filter(None, true));
        let all_tasks = match self.service.list_tasks(&all_filter) {
            Ok(t) => t,
            Err(_) => Vec::new(),
        };
        let ghost sv = tasks_view(all_tasks@);
        let mut projects: Vec<String> = Vec::new();
        let mut i: usize = 0;
        while i < all_tasks.len()
            invariant
                sv == tasks_view(all_tasks@),
                0 <= i <= all_tasks@.len(),
                crate::text::strings_view(projects@) == first_projects(sv.take(i as int)),
            decreases all_tasks@.len() - i,
        {
            assert(sv.take(i + 1).drop_last() =~= sv.take(i as int));
            assert(sv.take(i + 1).last() == sv[i as int]);
            if let Some(p) = &all_tasks[i].project {
                if !crate::text::contains_text_in(&projects, p) {
                    let ghost before = projects@;
                    projects.push(p.clone());
                    assert(crate::text::strings_view(projects@) =~= crate::text::strings_view(before).push(p@));
                }
            }
            i += 1;
        }
        assert(sv.take(sv.len() as int) =~= sv);
        let ghost unsorted = crate::text::strings_view(projects@);
        let mut sorted: Vec<String> = Vec::new();
        let mut j: usize = 0;
        while j < projects.len()
            invariant
                unsorted == crate::text::strings_view(projects@),
                0 <= j <= projects@.len(),
                crate::text::strings_view(sorted@) == sorted_texts(unsorted.take(j as int)),
            decreases projects@.len() - j,
        {
            assert(unsorted.take(j + 1).drop_last() =~= unsorted.take(j as int));
            assert(unsorted.take(j + 1).last() == unsorted[j as int]);
            insert_text_sorted(&mut sorted, projects[j].clone());
            j += 1;
        }
        assert(unsorted.take(unsorted.len() as int) =~= unsorted);
        let ghost sorted_v = crate::text::strings_view(sorted@);
        let mut tabs: Vec<Option<String>> = Vec::new();
        tabs.push(None);
        let mut k: usize = 0;
        while k < sorted.len()
            invariant
                sorted_v == crate::text::strings_view(sorted@),
                0 <= k <= sorted@.len(),
                opt_texts_view(tabs@) =~= seq![None] + sorted_v.take(k as int).map_values(
                    |p: Seq<char>| Some(p),
                ),
            decreases sorted@.len() - k,
        {
            let ghost before = tabs@;
            tabs.push(Some(sorted[k].clone()));
            assert(opt_texts_view(tabs@) =~= opt_texts_view(before).push(Some(sorted_v[k as int])));
            assert(sorted_v.take(k + 1) =~= sorted_v.take(k as int).push(sorted_v[k as int]));
            k += 1;
        }
        assert(sorted_v.take(sorted_v.len() as int) =~= sorted_v);
        self.project_tabs = tabs;
        if self.current_tab >= self.project_tabs.len() {
            self.current_tab = 0;
        }
    }


    /// Sets the status message, shown from `now`.
    pub(crate) fn set_status_message(&mut self, msg: String, now: u64)
        ensures
            app_marks(*old(self), *final(self)),
            final(self)@ == with_message(old(self)@, msg@, now),
    {
        self.status_message = msg;
        self.status_message_time = Some(now);
    }

    /// Number of active subtasks of a task.
    pub fn count_subtasks(&self, parent_id: TaskId) -> (r: usize)
        ensures
            r == crate::store::seqs::children_of(self@.active, parent_id).len(),
    {
        match self.service.get_subtasks(parent_id) {
            Ok(children) => children.len(),
            Err(_) => 0,
        }
    }


    /// The title shown for a subtask's parent in the detail panel.
    pub fn find_parent_title(&self, parent_id: TaskId) -> (r: String)
        ensures
            r@ == parent_title_of(self@, parent_id),
    {
        let ghost tv = tasks_view(self.tasks@);
        assert(tv.skip(0) =~= tv);
        let mut i: usize = 0;
        while i < self.tasks.len()
            invariant
                tv == tasks_view(self.tasks@),
                0 <= i <= self.tasks@.len(),
                first_title_with_id(tv, parent_id) == first_title_with_id(tv.skip(i as int), parent_id),
            decreases self.tasks@.len() - i,
        {
            assert(tv.skip(i as int).drop_first() =~= tv.skip(i + 1));
            assert(tv.skip(i as int)[0] == tv[i as int]);
            if self.tasks[i].id == parent_id {
                return self.tasks[i].title.clone();
            }
            i += 1;
        }
        assert(tv.skip(i as int).len() == 0);
        let prefix = short_id_text(parent_id);
        match self.service.get_task(prefix.as_str()) {
            Ok(p) => p.title,
            Err(_) => owned("Unknown"),
        }
    }

    /// The identifier prefix by which the UI names a task: its first eight
    /// characters.
    fn task_id_prefix(task: &Task) -> (r: String)
        ensures
            r@ == short_id(task.id),
    {
        short_id_text(task.id)
    }

    /// The status that the space key moves a task to.
    fn next_status(current: Status) -> (r: &'static str)
        ensures
            r@ == status_text(next_status_of(current)),
    {
        match current {
            Status::Todo => "in_progress",
            Status::InProgress => "done",
            Status::Done => "todo",
            Status::Cancelled => "todo",
        }
    }

    fn archived_note_text(n: usize) -> (r: String)
        ensures
            r@ == archived_note(n),
    {
        if n > 0 {
            let t = number_text(n as u64);
            let a = concat("サブタスク", t.as_str());
            concat(a.as_str(), "件と共にアーカイブしました")
        } else {
            owned("アーカイブしました")
        }
    }

    /// The space key: moves the selected task to its next status.
    fn toggle_status(&mut self, now: u64)
        requires
            app_wf(old(self)@),
        ensures
            app_marks(*old(self), *final(self)),
            app_wf(final(self)@),
            status_changed_by_key(old(self)@, final(self)@, now, false),
    {
        let ghost a0 = self@;
        if self.selected_index < self.tasks.len() {
            let task = self.tasks[self.selected_index].duplicate();
            let prefix = Self::task_id_prefix(&task);
            let new_status = Self::next_status(task.status);
            let result = self.service.change_status(prefix.as_str(), new_status);
            let ghost r = result;
            let ghost mid = with_tasks(a0, self@.active, self@.archived);
            assert(self@ == mid);
            match result {
                Ok(res) => {
                    if res.archived {
                        let msg = Self::archived_note_text(res.archived_subtasks);
                        self.set_status_message(msg, now);
                    }
                },
                Err(e) => {
                    let m = e.message();
                    self.set_status_message(concat("Status change failed: ", m.as_str()), now);
                },
            }
            assert(self@ == toggle_note(mid, r, now));
            self.reload_tasks();
            assert(status_outcome(
                a0.active,
                a0.archived,
                self@.active,
                self@.archived,
                short_id(task@.id),
                status_text(key_status(task@.status, false)),
                r,
            ));
        }
    }

    /// `x`: cancels the selected task.
    fn cancel_task(&mut self, now: u64)
        requires
            app_wf(old(self)@),
        ensures
            app_marks(*old(self), *final(self)),
            app_wf(final(self)@),
            status_changed_by_key(old(self)@, final(self)@, now, true),
    {
        let ghost a0 = self@;
        if self.selected_index < self.tasks.len() {
            let task = self.tasks[self.selected_index].duplicate();
            let prefix = Self::task_id_prefix(&task);
            let result = self.service.change_status(prefix.as_str(), "cancelled");
            let ghost r = result;
            let ghost mid = with_tasks(a0, self@.active, self@.archived);
            assert(self@ == mid);
            match result {
                Ok(res) => {
                    let a = concat("Cancelled '", task.title.as_str());
                    let mut msg = concat(a.as_str(), "'");
                    if res.archived {
                        let note = Self::archived_note_text(res.archived_subtasks);
                        let b = concat(" | ", note.as_str());
                        msg = concat(msg.as_str(), b.as_str());
                    } else {
                        proof {
                            assert(msg@ =~= msg@ + Seq::<char>::empty());
                        }
                    }
                    self.set_status_message(msg, now);
                },
                Err(e) => {
                    let m = e.message();
                    self.set_status_message(concat("Cancel failed: ", m.as_str()), now);
                },
            }
            assert(self@ == cancel_note(mid, task@, r, now));
            self.reload_tasks();
            assert(status_outcome(
                a0.active,
                a0.archived,
                self@.active,
                self@.archived,
                short_id(task@.id),
                status_text(key_status(task@.status, true)),
                r,
            ));
        }
    }

    /// `d`: asks for confirmation before deleting the selected task.
    fn open_delete_confirm(&mut self)
        ensures
            app_marks(*old(self), *final(self)),
            final(self)@ == match selected_of(old(self)@) {
                Some(t) => AppView {
                    delete_target: Some(t),
                    state: AppState::DeleteConfirm,
                    ..old(self)@
                },
                None => old(self)@,
            },
    {
        if self.selected_index < self.tasks.len() {
            let task = self.tasks[self.selected_index].duplicate();
            self.delete_target = Some(task);
            self.state = AppState::DeleteConfirm;
        }
    }

    /// A key on the delete confirmation.
    fn handle_key_delete_confirm(&mut self, key: KeyInput, now: u64)
        requires
            app_wf(old(self)@),
        ensures
            app_marks(*old(self), *final(self)),
            app_wf(final(self)@),
            delete_key_outcome(old(self)@, final(self)@, key, now),
    {
        let ghost a0 = self@;
        match key.code {
            Key::Char('y') => {
                let target = match &self.delete_target {
                    Some(t) => Some(t.duplicate()),
                    None => None,
                };
                match target {
                    Some(t) => {
                        let prefix = Self::task_id_prefix(&t);
                        let result = self.service.delete_task(prefix.as_str());
                        let ghost r = result;
                        let ghost mid = with_tasks(a0, self@.active, a0.archived);
                        assert(self@ == mid);
                        match result {
                            Ok(d) => {
                                let a = concat("Deleted '", d.task.title.as_str());
                                let msg = if d.deleted_subtasks > 0 {
                                    let b = concat(a.as_str(), "' and ");
                                    let n = number_text(d.deleted_subtasks as u64);
                                    let c = concat(b.as_str(), n.as_str());
                                    concat(c.as_str(), " subtask(s)")
                                } else {
                                    concat(a.as_str(), "'")
                                };
                                self.set_status_message(msg, now);
                            },
                            Err(e) => {
                                let m = e.message();
                                self.set_status_message(concat("Delete failed: ", m.as_str()), now);
                            },
                        }
                        assert(self@ == delete_note(mid, r, now));
                        self.delete_target = None;
                        self.state = AppState::TaskList;
                        self.reload_tasks();
                        assert(delete_outcome(a0.active, self@.active, short_id(t@.id), r));
                    },
                    None => {
                        self.delete_target = None;
                        self.state = AppState::TaskList;
                        self.reload_tasks();
                    },
                }
            },
            Key::Char('n') | Key::Esc => {
                self.delete_target = None;
                self.state = AppState::TaskList;
            },
            _ => {},
        }
    }


    /// A key on the task list.
    fn handle_key_list(&mut self, key: KeyInput, now: u64) -> (r: KeyResult)
        requires
            app_wf(old(self)@),
        ensures
            app_marks(*old(self), *final(self)),
            app_wf(final(self)@),
            r.should_quit == (key.code == Key::Char('q')),
            list_key_outcome(old(self)@, final(self)@, key, now),
    {
        match key.code {
            Key::Char('q') => {
                return KeyResult { should_quit: true };
            },
            Key::Char('j') | Key::Down => {
                if self.tasks.len() > 0 && self.selected_index < self.tasks.len() - 1 {
                    self.selected_index = self.selected_index + 1;
                }
            },
            Key::Char('k') | Key::Up => {
                if self.selected_index > 0 {
                    self.selected_index = self.selected_index - 1;
                }
            },
            Key::Char('h') | Key::Left => {
                if self.current_tab > 0 {
                    self.current_tab = self.current_tab - 1;
                } else {
                    self.current_tab = self.project_tabs.len() - 1;
                }
                self.selected_index = 0;
                self.reload_tasks();
            },
            Key::Char('l') | Key::Right => {
                if self.current_tab < self.project_tabs.len() - 1 {
                    self.current_tab = self.current_tab + 1;
                } else {
                    self.current_tab = 0;
                }
                self.selected_index = 0;
                self.reload_tasks();
            },
            Key::Char('c') => {
                self.show_completed = !self.show_completed;
                self.reload_tasks();
            },
            Key::Char('n') => {
                self.open_new_task_form();
            },
            Key::Char('e') => {
                self.open_edit_form();
            },
            Key::Char('s') => {
                self.open_subtask_form();
            },
            Key::Char(' ') => {
                self.toggle_status(now);
            },
            Key::Char('x') => {
                self.cancel_task(now);
            },
            Key::Char('d') => {
                self.open_delete_confirm();
            },
            Key::Esc => {
                self.status_message = owned("");
                self.status_message_time = None;
                proof {
                    reveal_strlit("");
                    assert(self.status_message@ =~= Seq::<char>::empty());
                }
            },
            _ => {},
        }
        KeyResult { should_quit: false }
    }

    /// A key pressed at time `now` (milliseconds on the caller's clock).
    pub fn handle_key(&mut self, key: KeyInput, now: u64) -> (r: KeyResult)
        requires
            app_wf(old(self)@),
        ensures
            app_marks(*old(self), *final(self)),
            app_wf(final(self)@),
            r.should_quit == (expired(old(self)@, now).state == AppState::TaskList && key.code
                == Key::Char('q')),
            key_outcome(old(self)@, final(self)@, key, now),
    {
        self.expire_message(now);
        match self.state {
            AppState::TaskList => self.handle_key_list(key, now),
            AppState::TaskForm => {
                self.handle_key_form(key, now);
                KeyResult { should_quit: false }
            },
            AppState::DeleteConfirm => {
                self.handle_key_delete_confirm(key, now);
                KeyResult { should_quit: false }
            },
        }
    }

    /// Forgets the status message once it has outlived its lifetime.
    fn expire_message(&mut self, now: u64)
        ensures
            app_marks(*old(self), *final(self)),
            final(self)@ == expired(old(self)@, now),
    {
        if let Some(t) = self.status_message_time {
            if now >= t && now - t >= 5000 {
                self.status_message = owned("");
                self.status_message_time = None;
                proof {
                    reveal_strlit("");
                    assert(self.status_message@ =~= Seq::<char>::empty());
                }
            }
        }
    }

    /// A tick of the clock at `now`, with `mtime` the time the data files
    /// were last changed: an old status message goes away; the answer says
    /// whether the files changed since last seen (the caller then reads them
    /// again and hands them to `refresh`).
    pub fn handle_tick(&mut self, now: u64, mtime: Option<u128>) -> (changed: bool)
        ensures
            app_marks(*old(self), *final(self)),
            changed == (mtime is Some && old(self)@.last_mtime is Some && mtime != old(self)@.last_mtime),
            final(self)@ == (AppView {
                last_mtime: if changed {
                    mtime
                } else {
                    old(self)@.last_mtime
                },
                ..expired(old(self)@, now)
            }),
    {
        self.expire_message(now);
        let changed = match (mtime, self.last_mtime) {
            (Some(m), Some(last)) => m != last,
            _ => false,
        };
        if changed {
            self.last_mtime = mtime;
        }
        changed
    }

    /// Takes the tasks read afresh from the data files and shows them.
    pub fn refresh(&mut self, fresh_tasks: TaskData, fresh_archive: TaskData)
        requires
            app_wf(old(self)@),
        ensures
            final(self).active_pending() == old(self).active_pending(),
            final(self).archive_pending() == old(self).archive_pending(),
            final(self).versions() == (fresh_tasks.version, fresh_archive.version),
            app_wf(final(self)@),
            final(self)@ == after_reload(
                AppView {
                    active: tasks_view(fresh_tasks.tasks@),
                    archived: tasks_view(fresh_archive.tasks@),
                    ..old(self)@
                },
            ),
    {
        self.service.invalidate_cache(fresh_tasks, fresh_archive);
        self.reload_tasks();
    }

    /// The data files were written at `mtime`; the service holds nothing
    /// unsaved any more.
    pub fn mark_saved(&mut self, mtime: Option<u128>)
        ensures
            !final(self).active_pending(),
            !final(self).archive_pending(),
            final(self)@ == (AppView { last_mtime: mtime, ..old(self)@ }),
    {
        self.service.mark_saved();
        self.last_mtime = mtime;
    }
}

} // verus!
