use todos::config::settings::Settings;
use todos::model::recurrence::Recurrence;
use todos::model::task::{CreatedBy, Priority, Status};
use todos::service::task_service::TaskService;
use todos::store::json_store::JsonStore;
use todos::store::schema::TaskData;
use todos::tui::app::{App, AppState, FormMode, Key, KeyInput};
use todos::tui::pages::{cursor_in_segment, fits_ui, label_display, scroll_offset, parent_display, priority_display, wrap_line_ranges, Area};

fn service_with(titles: &[(&str, Option<&str>)]) -> TaskService {
    let mut svc = TaskService::new(
        JsonStore::new("tasks.json".to_string(), TaskData::empty()),
        Settings::default(),
        JsonStore::new("archive.json".to_string(), TaskData::empty()),
    );
    for (title, project) in titles {
        svc.add_task(
            title.to_string(),
            None,
            Priority::Unset,
            CreatedBy::Human,
            None,
            project.map(|p| p.to_string()),
            None,
            Recurrence::Never,
        )
        .unwrap();
    }
    svc
}

fn key(code: Key) -> KeyInput {
    KeyInput { code, ctrl: false, alt: false }
}

fn press(app: &mut App, code: Key) -> bool {
    app.handle_key(key(code), 1_000).should_quit
}

fn typed(app: &mut App, text: &str) {
    for c in text.chars() {
        press(app, Key::Char(c));
    }
}

#[test]
fn tabs_list_projects_in_order() {
    let app = App::new(service_with(&[("a", Some("zeta")), ("b", Some("alpha")), ("c", None)]), None);
    assert_eq!(app.visible_task_count(), 3);
    let tabs = app.project_tabs();
    assert_eq!(tabs.len(), 3);
    assert_eq!(tabs[0], None);
    assert_eq!(tabs[1].as_deref(), Some("alpha"));
    assert_eq!(tabs[2].as_deref(), Some("zeta"));
    assert_eq!(app.current_project_filter(), None);
}

#[test]
fn tab_keys_wrap_around_and_filter() {
    let mut app = App::new(service_with(&[("a", Some("zeta")), ("b", Some("alpha"))]), None);
    press(&mut app, Key::Char('h'));
    assert_eq!(app.current_tab(), 2);
    assert_eq!(app.current_project_filter(), Some("zeta"));
    assert_eq!(app.visible_task_count(), 1);
    assert_eq!(app.tasks()[0].title, "a");
    press(&mut app, Key::Char('l'));
    assert_eq!(app.current_tab(), 0);
    assert_eq!(app.visible_task_count(), 2);
}

#[test]
fn selection_stays_in_the_list() {
    let mut app = App::new(service_with(&[("a", None), ("b", None)]), None);
    press(&mut app, Key::Char('k'));
    assert_eq!(app.selected_index(), 0);
    press(&mut app, Key::Char('j'));
    press(&mut app, Key::Down);
    assert_eq!(app.selected_index(), 1);
    assert_eq!(app.selected_task().unwrap().title, "b");
    assert!(press(&mut app, Key::Char('q')));
}

#[test]
fn new_task_form_saves_a_task() {
    let mut app = App::new(service_with(&[]), None);
    press(&mut app, Key::Char('n'));
    assert_eq!(*app.state(), AppState::TaskForm);
    assert_eq!(app.form().unwrap().mode, FormMode::New);
    press(&mut app, Key::Enter);
    assert_eq!(app.status_message(), "Title cannot be empty");
    assert_eq!(*app.state(), AppState::TaskForm);
    typed(&mut app, "  Buy milk ");
    press(&mut app, Key::Tab);
    press(&mut app, Key::Right);
    press(&mut app, Key::Right);
    press(&mut app, Key::Enter);
    assert_eq!(app.status_message(), "Task created");
    assert_eq!(*app.state(), AppState::TaskList);
    assert_eq!(app.visible_task_count(), 1);
    assert_eq!(app.tasks()[0].title, "Buy milk");
    assert_eq!(app.tasks()[0].priority, Priority::Medium);
}

#[test]
fn escape_closes_the_form() {
    let mut app = App::new(service_with(&[]), None);
    press(&mut app, Key::Char('n'));
    typed(&mut app, "draft");
    press(&mut app, Key::Esc);
    assert!(app.form().is_none());
    assert_eq!(*app.state(), AppState::TaskList);
    assert_eq!(app.visible_task_count(), 0);
}

#[test]
fn content_field_edits_lines() {
    let mut app = App::new(service_with(&[]), None);
    press(&mut app, Key::Char('n'));
    press(&mut app, Key::BackTab);
    assert_eq!(app.form().unwrap().focused_field, 5);
    typed(&mut app, "ab");
    app.handle_key(KeyInput { code: Key::Char('j'), ctrl: true, alt: false }, 1_000);
    typed(&mut app, "cd");
    assert_eq!(app.form().unwrap().content, "ab\ncd");
    assert_eq!(app.form().unwrap().content_cursor_row, 1);
    press(&mut app, Key::Left);
    press(&mut app, Key::Left);
    press(&mut app, Key::Backspace);
    assert_eq!(app.form().unwrap().content, "abcd");
    assert_eq!(app.form().unwrap().content_cursor_row, 0);
    assert_eq!(app.form().unwrap().content_cursor_col, 2);
    app.handle_key(KeyInput { code: Key::Enter, ctrl: false, alt: true }, 1_000);
    assert_eq!(app.form().unwrap().content, "ab\ncd");
}

#[test]
fn title_cursor_edits_in_place() {
    let mut app = App::new(service_with(&[]), None);
    press(&mut app, Key::Char('n'));
    typed(&mut app, "ac");
    press(&mut app, Key::Left);
    typed(&mut app, "b");
    assert_eq!(app.form().unwrap().title, "abc");
    press(&mut app, Key::Backspace);
    assert_eq!(app.form().unwrap().title, "ac");
    assert_eq!(app.form().unwrap().title_cursor, 1);
}

#[test]
fn edit_form_is_filled_and_saves() {
    let mut app = App::new(service_with(&[("old title", Some("proj"))]), None);
    press(&mut app, Key::Char('e'));
    let form = app.form().unwrap();
    assert_eq!(form.mode, FormMode::Edit);
    assert_eq!(form.title, "old title");
    assert_eq!(form.title_cursor, 9);
    assert_eq!(form.project, "proj");
    assert_eq!(form.project_cursor, 4);
    press(&mut app, Key::Backspace);
    press(&mut app, Key::Enter);
    assert_eq!(app.status_message(), "Task updated");
    assert_eq!(app.tasks()[0].title, "old titl");
}

#[test]
fn subtask_form_chooses_the_parent() {
    let mut app = App::new(service_with(&[("parent", Some("proj"))]), None);
    press(&mut app, Key::Char('s'));
    let parent_id = app.tasks()[0].id;
    assert_eq!(app.form_parent_id(), Some(parent_id));
    assert_eq!(app.form().unwrap().project, "proj");
    typed(&mut app, "child");
    press(&mut app, Key::Enter);
    assert_eq!(app.status_message(), "Subtask created");
    assert_eq!(app.visible_task_count(), 2);
    assert_eq!(app.tasks()[1].parent_id, Some(parent_id));
}

#[test]
fn space_moves_through_statuses_and_archives() {
    let mut app = App::new(service_with(&[("task", None)]), None);
    press(&mut app, Key::Char(' '));
    assert_eq!(app.tasks()[0].status, Status::InProgress);
    press(&mut app, Key::Char(' '));
    assert_eq!(app.status_message(), "アーカイブしました");
    assert_eq!(app.visible_task_count(), 0);
    press(&mut app, Key::Char('c'));
    assert!(app.show_completed());
    assert_eq!(app.visible_task_count(), 1);
    assert_eq!(app.tasks()[0].status, Status::Done);
}

#[test]
fn x_cancels_the_selected_task() {
    let mut app = App::new(service_with(&[("task", None)]), None);
    press(&mut app, Key::Char('x'));
    assert_eq!(app.status_message(), "Cancelled 'task' | アーカイブしました");
    assert_eq!(app.visible_task_count(), 0);
}

#[test]
fn delete_asks_first() {
    let mut app = App::new(service_with(&[("task", None)]), None);
    press(&mut app, Key::Char('d'));
    assert_eq!(*app.state(), AppState::DeleteConfirm);
    assert_eq!(app.delete_target().unwrap().title, "task");
    press(&mut app, Key::Char('n'));
    assert_eq!(*app.state(), AppState::TaskList);
    assert_eq!(app.visible_task_count(), 1);
    press(&mut app, Key::Char('d'));
    press(&mut app, Key::Char('y'));
    assert_eq!(app.status_message(), "Deleted 'task'");
    assert_eq!(app.visible_task_count(), 0);
    assert!(app.delete_target().is_none());
}

#[test]
fn status_message_expires() {
    let mut app = App::new(service_with(&[("task", None)]), None);
    app.handle_key(key(Key::Char('x')), 10_000);
    assert!(!app.status_message().is_empty());
    app.handle_key(key(Key::Other), 14_999);
    assert!(!app.status_message().is_empty());
    app.handle_key(key(Key::Other), 15_000);
    assert_eq!(app.status_message(), "");
}

#[test]
fn tick_reports_changed_files() {
    let mut app = App::new(service_with(&[]), Some(5));
    assert!(!app.handle_tick(0, Some(5)));
    assert!(app.handle_tick(0, Some(6)));
    assert!(!app.handle_tick(0, Some(6)));
    assert!(!app.handle_tick(0, None));
    let fresh = service_with(&[("from disk", None)]);
    let data = TaskData { version: 1, tasks: fresh.list_tasks(&Default::default()).unwrap() };
    app.refresh(data, TaskData::empty());
    assert_eq!(app.visible_task_count(), 1);
    assert_eq!(app.tasks()[0].title, "from disk");
}

#[test]
fn long_lines_wrap_by_display_width() {
    assert_eq!(wrap_line_ranges("abcdef", 3), vec![(0, 3), (3, 6)]);
    assert_eq!(wrap_line_ranges("日本語", 4), vec![(0, 2), (2, 3)]);
    assert_eq!(wrap_line_ranges("abc", 0), vec![(0, 3)]);
    assert_eq!(wrap_line_ranges("", 5), vec![(0, 0)]);
}

#[test]
fn selectors_show_their_choice() {
    assert_eq!(priority_display(2), "medium");
    assert_eq!(priority_display(9), "none");
    let labels = vec!["bug".to_string()];
    assert_eq!(label_display(0, &labels), "(none)");
    assert_eq!(label_display(1, &labels), "bug");
    assert_eq!(label_display(2, &labels), "(none)");
    let parents = vec![(7u128, "root".to_string())];
    assert_eq!(parent_display(1, &parents), "root");
}

#[test]
fn parent_titles_come_from_the_list_or_the_service() {
    let mut app = App::new(service_with(&[("root", None)]), None);
    let root_id = app.tasks()[0].id;
    assert_eq!(app.find_parent_title(root_id), "root");
    assert_eq!(app.find_parent_title(root_id ^ 1), "root");
    assert_eq!(app.find_parent_title(root_id ^ (1u128 << 127)), "Unknown");
    press(&mut app, Key::Char('l'));
    assert_eq!(app.count_subtasks(root_id), 0);
}

#[test]
fn tiny_terminal_shows_too_small_message() {
    assert!(!fits_ui(Area { x: 0, y: 0, width: 19, height: 4 }));
    assert!(!fits_ui(Area { x: 0, y: 0, width: 80, height: 4 }));
    assert!(!fits_ui(Area { x: 0, y: 0, width: 19, height: 24 }));
    assert!(fits_ui(Area { x: 0, y: 0, width: 20, height: 5 }));
}

#[test]
fn content_scrolls_to_the_cursor() {
    assert_eq!(scroll_offset(0, 3), 0);
    assert_eq!(scroll_offset(2, 3), 0);
    assert_eq!(scroll_offset(5, 3), 3);
    assert_eq!(scroll_offset(4, 0), 4);
    assert!(cursor_in_segment(2, 0, 3, false));
    assert!(!cursor_in_segment(3, 0, 3, false));
    assert!(cursor_in_segment(3, 0, 3, true));
    assert!(!cursor_in_segment(1, 2, 5, true));
}
