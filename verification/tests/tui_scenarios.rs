use todos::config::settings::Settings;
use todos::model::filter::TaskFilter;
use todos::model::recurrence::Recurrence;
use todos::model::task::{short_id_text, CreatedBy, Priority, Status, Task};
use todos::service::task_service::TaskService;
use todos::store::json_store::JsonStore;
use todos::store::schema::TaskData;
use todos::tui::app::{App, AppState, FormMode, Key, KeyInput};

const NOW: u64 = 1_000;

fn empty_service() -> TaskService {
    TaskService::new(
        JsonStore::new("tasks.json".to_string(), TaskData::empty()),
        Settings::default(),
        JsonStore::new("archive.json".to_string(), TaskData::empty()),
    )
}

fn service_from(tasks: Vec<Task>) -> TaskService {
    TaskService::new(
        JsonStore::new("tasks.json".to_string(), TaskData { version: 1, tasks }),
        Settings::default(),
        JsonStore::new("archive.json".to_string(), TaskData::empty()),
    )
}

/// The library's side of `todos add TITLE [-d CONTENT] [-p PRIORITY] [-l LABEL] [-P PROJECT] [--parent ID]`.
fn add_full(
    svc: &mut TaskService,
    title: &str,
    content: Option<&str>,
    priority: Priority,
    label: Option<&str>,
    project: Option<&str>,
    parent: Option<&Task>,
) -> Task {
    svc.add_task(
        title.to_string(),
        content.map(|c| c.to_string()),
        priority,
        CreatedBy::Human,
        label.map(|l| l.to_string()),
        project.map(|p| p.to_string()),
        parent.map(|p| short_id_text(p.id)),
        Recurrence::Never,
    )
    .unwrap()
}

fn add(svc: &mut TaskService, title: &str) -> Task {
    add_full(svc, title, None, Priority::Unset, None, None, None)
}

fn add_in(svc: &mut TaskService, title: &str, project: &str) -> Task {
    add_full(svc, title, None, Priority::Unset, None, Some(project), None)
}

fn add_child(svc: &mut TaskService, title: &str, parent: &Task) -> Task {
    add_full(svc, title, None, Priority::Unset, None, None, Some(parent))
}

fn create_test_app() -> App {
    App::new(empty_service(), None)
}

fn input(code: Key, ctrl: bool, alt: bool) -> KeyInput {
    KeyInput { code, ctrl, alt }
}

fn press(app: &mut App, code: Key) -> bool {
    app.handle_key(input(code, false, false), NOW).should_quit
}

fn key(app: &mut App, c: char) {
    press(app, Key::Char(c));
}

fn type_string(app: &mut App, s: &str) {
    for c in s.chars() {
        key(app, c);
    }
}

fn alt_enter(app: &mut App) {
    app.handle_key(input(Key::Enter, false, true), NOW);
}

fn ctrl_j(app: &mut App) {
    app.handle_key(input(Key::Char('j'), true, false), NOW);
}

#[test]
fn app_initializes_without_panic() {
    let app = create_test_app();
    assert_eq!(*app.state(), AppState::TaskList);
    assert_eq!(app.visible_task_count(), 0);
    assert_eq!(app.selected_index(), 0);
}

#[test]
fn app_quit_on_q() {
    let mut app = create_test_app();
    assert!(press(&mut app, Key::Char('q')));
}

#[test]
fn cursor_movement() {
    let mut svc = empty_service();
    add(&mut svc, "タスク1");
    add(&mut svc, "タスク2");
    let mut app = App::new(svc, None);
    assert_eq!(app.selected_index(), 0);
    key(&mut app, 'j');
    assert_eq!(app.selected_index(), 1);
    key(&mut app, 'k');
    assert_eq!(app.selected_index(), 0);
}

#[test]
fn project_tab_switching() {
    let mut svc = empty_service();
    add_in(&mut svc, "A", "svc-a");
    add_in(&mut svc, "B", "svc-b");
    let mut app = App::new(svc, None);
    assert_eq!(app.current_project_filter(), None);
    key(&mut app, 'l');
    assert!(app.current_project_filter().is_some());
}

#[test]
fn completed_toggle() {
    let mut svc = empty_service();
    let t = add(&mut svc, "タスク");
    svc.change_status(&short_id_text(t.id), "done").unwrap();
    let mut app = App::new(svc, None);
    assert_eq!(app.visible_task_count(), 0);
    key(&mut app, 'c');
    assert_eq!(app.visible_task_count(), 1);
}

#[test]
fn new_task_form_opens_on_n() {
    let mut app = create_test_app();
    key(&mut app, 'n');
    assert_eq!(*app.state(), AppState::TaskForm);
}

#[test]
fn subtask_form_opens_on_s() {
    let mut svc = empty_service();
    add(&mut svc, "親");
    let mut app = App::new(svc, None);
    key(&mut app, 's');
    assert_eq!(*app.state(), AppState::TaskForm);
    assert!(app.form_parent_id().is_some());
}

#[test]
fn edit_form_opens_on_e() {
    let mut svc = empty_service();
    add(&mut svc, "テスト");
    let mut app = App::new(svc, None);
    key(&mut app, 'e');
    assert_eq!(*app.state(), AppState::TaskForm);
}

#[test]
fn space_toggles_status() {
    let mut svc = empty_service();
    add(&mut svc, "テスト");
    let mut app = App::new(svc, None);
    key(&mut app, ' ');
    assert_eq!(app.selected_task().unwrap().status, Status::InProgress);
    key(&mut app, ' ');
    assert_eq!(app.visible_task_count(), 0);
}

#[test]
fn x_cancels_task() {
    let mut svc = empty_service();
    add(&mut svc, "テスト");
    let mut app = App::new(svc, None);
    key(&mut app, 'x');
    assert_eq!(app.visible_task_count(), 0);
}

#[test]
fn d_opens_delete_confirm() {
    let mut svc = empty_service();
    add(&mut svc, "テスト");
    let mut app = App::new(svc, None);
    key(&mut app, 'd');
    assert_eq!(*app.state(), AppState::DeleteConfirm);
}

#[test]
fn esc_cancels_form() {
    let mut app = create_test_app();
    key(&mut app, 'n');
    assert_eq!(*app.state(), AppState::TaskForm);
    press(&mut app, Key::Esc);
    assert_eq!(*app.state(), AppState::TaskList);
}

#[test]
fn file_change_triggers_reload() {
    let mut svc = empty_service();
    add(&mut svc, "初期");
    let mut app = App::new(svc, Some(1));
    assert_eq!(app.visible_task_count(), 1);
    // Another process adds a task and rewrites the file.
    let on_disk = app.service().list_tasks(&TaskFilter::default()).unwrap();
    let mut other = service_from(on_disk);
    add(&mut other, "外部追加");
    let fresh = other.list_tasks(&TaskFilter::default()).unwrap();
    // The tick sees the newer file, and the caller reloads it.
    assert!(app.handle_tick(NOW, Some(2)));
    app.refresh(TaskData { version: 1, tasks: fresh }, TaskData::empty());
    assert_eq!(app.visible_task_count(), 2);
}

#[test]
fn repro_create_task_via_form() {
    let mut app = create_test_app();
    key(&mut app, 'n');
    assert_eq!(*app.state(), AppState::TaskForm);
    type_string(&mut app, "FormTask");
    press(&mut app, Key::Enter);
    assert_eq!(*app.state(), AppState::TaskList);
    assert_eq!(app.visible_task_count(), 1);
}

#[test]
fn repro_create_subtask_via_form() {
    let mut svc = empty_service();
    add(&mut svc, "Parent");
    let mut app = App::new(svc, None);
    assert_eq!(app.visible_task_count(), 1);
    key(&mut app, 's');
    assert_eq!(*app.state(), AppState::TaskForm);
    assert!(app.form_parent_id().is_some());
    type_string(&mut app, "Child");
    press(&mut app, Key::Enter);
    assert_eq!(*app.state(), AppState::TaskList);
    assert_eq!(app.visible_task_count(), 2);
}

#[test]
fn form_parent_selector_shows_available_parents() {
    let mut svc = empty_service();
    add(&mut svc, "ParentA");
    add(&mut svc, "ParentB");
    let mut app = App::new(svc, None);
    key(&mut app, 'n');
    let form = app.form().unwrap();
    assert_eq!(form.available_parents.len(), 2);
    assert_eq!(form.parent_index, 0);
}

#[test]
fn form_create_subtask_via_parent_selector() {
    let mut svc = empty_service();
    add(&mut svc, "Root");
    let mut app = App::new(svc, None);
    assert_eq!(app.visible_task_count(), 1);
    key(&mut app, 'n');
    type_string(&mut app, "Child via selector");
    for _ in 0..4 {
        press(&mut app, Key::Tab);
    }
    press(&mut app, Key::Right);
    assert!(app.form_parent_id().is_some());
    press(&mut app, Key::Enter);
    assert_eq!(*app.state(), AppState::TaskList);
    assert_eq!(app.visible_task_count(), 2);
    let child = app.tasks().iter().find(|t| t.title == "Child via selector").unwrap();
    assert!(child.parent_id.is_some());
}

#[test]
fn subtask_form_parent_locked() {
    let mut svc = empty_service();
    add(&mut svc, "Root");
    let mut app = App::new(svc, None);
    key(&mut app, 's');
    let form = app.form().unwrap();
    assert_eq!(form.mode, FormMode::Subtask);
    assert!(form.parent_index > 0);
}

#[test]
fn form_save_error_preserves_form_data() {
    let mut app = create_test_app();
    key(&mut app, 'n');
    press(&mut app, Key::Enter);
    assert_eq!(*app.state(), AppState::TaskForm);
    assert!(app.status_message().contains("empty"));
}

#[test]
fn delete_confirm_y_deletes_task() {
    let mut svc = empty_service();
    add(&mut svc, "ToDelete");
    let mut app = App::new(svc, None);
    assert_eq!(app.visible_task_count(), 1);
    key(&mut app, 'd');
    assert_eq!(*app.state(), AppState::DeleteConfirm);
    key(&mut app, 'y');
    assert_eq!(*app.state(), AppState::TaskList);
    assert_eq!(app.visible_task_count(), 0);
}

#[test]
fn delete_confirm_n_cancels() {
    let mut svc = empty_service();
    add(&mut svc, "Keep");
    let mut app = App::new(svc, None);
    assert_eq!(app.visible_task_count(), 1);
    key(&mut app, 'd');
    assert_eq!(*app.state(), AppState::DeleteConfirm);
    key(&mut app, 'n');
    assert_eq!(*app.state(), AppState::TaskList);
    assert_eq!(app.visible_task_count(), 1);
}

#[test]
fn delete_confirm_esc_cancels() {
    let mut svc = empty_service();
    add(&mut svc, "Keep");
    let mut app = App::new(svc, None);
    key(&mut app, 'd');
    assert_eq!(*app.state(), AppState::DeleteConfirm);
    press(&mut app, Key::Esc);
    assert_eq!(*app.state(), AppState::TaskList);
    assert_eq!(app.visible_task_count(), 1);
}

#[test]
fn edit_form_prefills_existing_values() {
    let mut svc = empty_service();
    add_full(&mut svc, "MyTitle", Some("MyDesc"), Priority::High, Some("bug"), Some("proj1"), None);
    let mut app = App::new(svc, None);
    key(&mut app, 'e');
    assert_eq!(*app.state(), AppState::TaskForm);
    let form = app.form().unwrap();
    assert_eq!(form.mode, FormMode::Edit);
    assert_eq!(form.title, "MyTitle");
    assert_eq!(form.content, "MyDesc");
    assert_eq!(form.priority_index, 3);
    assert!(form.label_index > 0);
    assert_eq!(form.project, "proj1");
}

#[test]
fn edit_form_parent_excludes_self() {
    let mut svc = empty_service();
    add(&mut svc, "TaskA");
    add(&mut svc, "TaskB");
    let mut app = App::new(svc, None);
    key(&mut app, 'e');
    let form = app.form().unwrap();
    let titles: Vec<&str> = form.available_parents.iter().map(|(_, t)| t.as_str()).collect();
    assert!(titles.contains(&"TaskB"), "TaskB should be available as parent");
    assert!(!titles.contains(&"TaskA"), "TaskA (self) should NOT be available as parent");
}

#[test]
fn form_tab_cycles_all_fields() {
    let mut app = create_test_app();
    key(&mut app, 'n');
    assert_eq!(app.form().unwrap().focused_field, 0);
    for expected in 1..=5 {
        press(&mut app, Key::Tab);
        assert_eq!(app.form().unwrap().focused_field, expected);
    }
    press(&mut app, Key::Tab);
    assert_eq!(app.form().unwrap().focused_field, 0, "Should wrap around to field 0");
}

#[test]
fn form_backtab_cycles_all_fields() {
    let mut app = create_test_app();
    key(&mut app, 'n');
    assert_eq!(app.form().unwrap().focused_field, 0);
    press(&mut app, Key::BackTab);
    assert_eq!(app.form().unwrap().focused_field, 5, "BackTab from 0 should wrap to last field");
    press(&mut app, Key::BackTab);
    assert_eq!(app.form().unwrap().focused_field, 4);
}

#[test]
fn delete_parent_cascades_in_tui() {
    let mut svc = empty_service();
    let parent = add(&mut svc, "Parent");
    add_child(&mut svc, "Child1", &parent);
    add_child(&mut svc, "Child2", &parent);
    let mut app = App::new(svc, None);
    assert_eq!(app.visible_task_count(), 3);
    key(&mut app, 'd');
    assert_eq!(*app.state(), AppState::DeleteConfirm);
    key(&mut app, 'y');
    assert_eq!(*app.state(), AppState::TaskList);
    assert_eq!(app.visible_task_count(), 0);
}

#[test]
fn content_multiline_input_via_alt_enter() {
    let mut app = create_test_app();
    key(&mut app, 'n');
    assert_eq!(*app.state(), AppState::TaskForm);
    type_string(&mut app, "MultilineTask");
    for _ in 0..5 {
        press(&mut app, Key::Tab);
    }
    type_string(&mut app, "line1");
    alt_enter(&mut app);
    type_string(&mut app, "line2");
    ctrl_j(&mut app);
    type_string(&mut app, "line3");
    assert_eq!(app.form().unwrap().content, "line1\nline2\nline3");
    press(&mut app, Key::Enter);
    assert_eq!(*app.state(), AppState::TaskList);
    assert_eq!(app.visible_task_count(), 1);
    let task = app.selected_task().unwrap();
    assert_eq!(task.content.as_deref(), Some("line1\nline2\nline3"));
}

#[test]
fn content_cursor_navigation() {
    let mut app = create_test_app();
    key(&mut app, 'n');
    for _ in 0..5 {
        press(&mut app, Key::Tab);
    }
    type_string(&mut app, "abc");
    alt_enter(&mut app);
    type_string(&mut app, "defgh");
    alt_enter(&mut app);
    type_string(&mut app, "ij");
    let form = app.form().unwrap();
    assert_eq!(form.content_cursor_row, 2);
    assert_eq!(form.content_cursor_col, 2);
    press(&mut app, Key::Up);
    let form = app.form().unwrap();
    assert_eq!(form.content_cursor_row, 1);
    assert_eq!(form.content_cursor_col, 2);
    press(&mut app, Key::Up);
    let form = app.form().unwrap();
    assert_eq!(form.content_cursor_row, 0);
    assert_eq!(form.content_cursor_col, 2);
    press(&mut app, Key::Up);
    assert_eq!(app.form().unwrap().content_cursor_row, 0);
    press(&mut app, Key::Down);
    assert_eq!(app.form().unwrap().content_cursor_row, 1);
    press(&mut app, Key::Down);
    assert_eq!(app.form().unwrap().content_cursor_row, 2);
    press(&mut app, Key::Down);
    assert_eq!(app.form().unwrap().content_cursor_row, 2);
}

#[test]
fn content_backspace_joins_lines() {
    let mut app = create_test_app();
    key(&mut app, 'n');
    for _ in 0..5 {
        press(&mut app, Key::Tab);
    }
    type_string(&mut app, "hello");
    alt_enter(&mut app);
    type_string(&mut app, "world");
    let form = app.form().unwrap();
    assert_eq!(form.content, "hello\nworld");
    assert_eq!(form.content_cursor_row, 1);
    assert_eq!(form.content_cursor_col, 5);
    for _ in 0..5 {
        press(&mut app, Key::Backspace);
    }
    let form = app.form().unwrap();
    assert_eq!(form.content, "hello\n");
    assert_eq!(form.content_cursor_row, 1);
    assert_eq!(form.content_cursor_col, 0);
    press(&mut app, Key::Backspace);
    let form = app.form().unwrap();
    assert_eq!(form.content, "hello");
    assert_eq!(form.content_cursor_row, 0);
    assert_eq!(form.content_cursor_col, 5);
}

#[test]
fn app_displays_task_count() {
    let mut svc = empty_service();
    add(&mut svc, "テスト");
    let app = App::new(svc, None);
    assert_eq!(app.visible_task_count(), 1);
    assert!(app.tasks().iter().any(|t| t.title == "テスト"));
}

#[test]
fn list_shows_tasks_with_tree() {
    let mut svc = empty_service();
    let parent = add_full(&mut svc, "親タスク", None, Priority::High, None, None, None);
    add_child(&mut svc, "子タスク", &parent);
    let app = App::new(svc, None);
    let titles: Vec<&str> = app.tasks().iter().map(|t| t.title.as_str()).collect();
    assert_eq!(titles, vec!["親タスク", "子タスク"]);
}

#[test]
fn detail_panel_shows_selected_task() {
    let mut svc = empty_service();
    add_full(&mut svc, "テスト", Some("詳細説明"), Priority::High, None, None, None);
    let app = App::new(svc, None);
    let task = app.selected_task().unwrap();
    assert_eq!(task.content.as_deref(), Some("詳細説明"));
    assert_eq!(task.priority.as_text(), "high");
}

#[test]
fn parent_task_shows_subtask_count_in_detail() {
    let mut svc = empty_service();
    let parent = add(&mut svc, "親");
    add_child(&mut svc, "子1", &parent);
    add_child(&mut svc, "子2", &parent);
    let app = App::new(svc, None);
    assert_eq!(app.selected_task().unwrap().title, "親");
    assert_eq!(app.count_subtasks(parent.id), 2);
}

#[test]
fn project_indicator_shows_current_project() {
    let mut svc = empty_service();
    add_in(&mut svc, "A", "alpha");
    add_in(&mut svc, "B", "beta");
    let mut app = App::new(svc, None);
    assert_eq!(app.current_project_filter(), None);
    key(&mut app, 'l');
    assert_eq!(app.current_project_filter(), Some("alpha"));
}

#[test]
fn form_parent_field_renders_in_form() {
    let mut svc = empty_service();
    add(&mut svc, "Root");
    let mut app = App::new(svc, None);
    key(&mut app, 'n');
    let form = app.form().unwrap();
    assert_eq!(form.available_parents.len(), 1);
    assert_eq!(form.available_parents[0].1, "Root");
}

#[test]
fn content_multiline_display_in_detail() {
    let mut svc = empty_service();
    add_full(&mut svc, "Detail", Some("first\nsecond\nthird"), Priority::Unset, None, None, None);
    let app = App::new(svc, None);
    let content = app.selected_task().unwrap().content.clone().unwrap();
    let lines: Vec<&str> = content.split('\n').collect();
    assert_eq!(lines, vec!["first", "second", "third"]);
}

#[test]
fn keys_that_change_tasks_mark_them_for_writing() {
    let mut app = create_test_app();
    assert!(!app.service().store().needs_save());
    key(&mut app, 'n');
    type_string(&mut app, "Saved");
    press(&mut app, Key::Enter);
    assert!(app.service().store().needs_save());
    app.mark_saved(Some(1));
    assert!(!app.service().store().needs_save());
    key(&mut app, 'x');
    assert!(app.service().store().needs_save());
    assert!(app.service().archive_store().needs_save());
}
