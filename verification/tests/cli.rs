use todos::cli::config::{apply_changes, reset_response, run as config_run, ConfigAction, ConfigParams};
use todos::cli::delete::{confirmation_prompt, is_confirmed};
use todos::cli::list::{format_text_table, ListParams};
use todos::cli::output::CliResponse;
use todos::cli::search::run as search_run;
use todos::cli::stats::format_stats;
use todos::cli::{add, delete, edit, list, show, status};
use todos::config::settings::Settings;
use todos::error::AppError;
use todos::model::filter::TaskFilter;
use todos::model::recurrence::Recurrence;
use todos::model::task::{CreatedBy, Priority, Task};
use todos::service::task_service::TaskService;
use todos::store::json_store::JsonStore;
use todos::store::schema::TaskData;

/// The hyphenated form of an identifier.
fn id_text(id: u128) -> String {
    uuid::Uuid::from_u128(id).to_string()
}

fn service() -> TaskService {
    TaskService::new(
        JsonStore::new("tasks.json".to_string(), TaskData::empty()),
        Settings::default(),
        JsonStore::new("archive.json".to_string(), TaskData::empty()),
    )
}

fn params(title: &str, parent: Option<String>) -> add::AddParams {
    add::AddParams {
        title: title.to_string(),
        content: None,
        priority: Priority::High,
        created_by: CreatedBy::Human,
        label: None,
        project: Some("app".to_string()),
        parent,
        recurrence: Recurrence::Never,
    }
}

fn new_task(svc: &mut TaskService, title: &str, parent: Option<String>) -> Task {
    add::run(svc, params(title, parent), "text", "en").unwrap().data.unwrap().task
}

fn prefix(t: &Task) -> String {
    id_text(t.id)[..8].to_string()
}

#[test]
fn add_answers_with_localized_message() {
    let mut svc = service();
    let resp = add::run(&mut svc, params("one", None), "json", "ja").unwrap();
    assert!(resp.success);
    assert_eq!(resp.message.as_deref(), Some("タスクを作成しました"));
    let resp = add::run(&mut svc, params("two", None), "text", "fr").unwrap();
    assert_eq!(resp.message.as_deref(), Some("Task created"));
    assert_eq!(resp.data.unwrap().task.title, "two");
}

#[test]
fn edit_message_only_in_text_format() {
    let mut svc = service();
    let t = new_task(&mut svc, "one", None);
    let p = edit::EditParams {
        id: prefix(&t),
        title: Some("uno".to_string()),
        content: None,
        priority: None,
        label: None,
        project: None,
        parent: None,
        recurrence: None,
    };
    let resp = edit::run(&mut svc, p, "json", "en").unwrap();
    assert!(resp.message.is_none());
    assert_eq!(resp.data.unwrap().task.title, "uno");
}

#[test]
fn status_message_names_the_status() {
    let mut svc = service();
    let t = new_task(&mut svc, "one", None);
    let resp = status::run(&mut svc, &prefix(&t), "in_progress", "text", "en").unwrap();
    assert_eq!(resp.message.as_deref(), Some("Status changed to in_progress"));
    let resp = status::run(&mut svc, &prefix(&t), "done", "text", "ja").unwrap();
    assert_eq!(resp.message.as_deref(), Some("ステータスをdoneに変更しました"));
}

#[test]
fn delete_needs_yes_in_json() {
    let mut svc = service();
    let t = new_task(&mut svc, "one", None);
    let r = delete::run(&mut svc, &prefix(&t), false, "json", "en");
    match r {
        Err(AppError::InvalidInput(m)) => {
            assert_eq!(m, "JSON format requires --yes flag for delete")
        }
        _ => panic!("deleted without --yes"),
    }
    assert!(svc.get_task(&prefix(&t)).is_ok());
}

#[test]
fn delete_reports_subtasks() {
    let mut svc = service();
    let parent = new_task(&mut svc, "parent", None);
    new_task(&mut svc, "child", Some(prefix(&parent)));
    let prompt = confirmation_prompt(&svc, &prefix(&parent)).unwrap();
    assert_eq!(prompt, "Delete 'parent' and 1 subtask(s)? [y/N] ");
    let resp = delete::run(&mut svc, &prefix(&parent), true, "text", "en").unwrap();
    assert_eq!(resp.message.as_deref(), Some("Task deleted with 1 subtask(s)"));
    assert_eq!(resp.data.unwrap().deleted_subtasks, 1);
}

#[test]
fn confirmation_accepts_y_only() {
    assert!(is_confirmed(" y\n"));
    assert!(is_confirmed("Y"));
    assert!(!is_confirmed("yes"));
    assert!(!is_confirmed(""));
}

#[test]
fn list_text_table_has_header_and_indented_subtasks() {
    let mut svc = service();
    let parent = new_task(&mut svc, "parent", None);
    new_task(&mut svc, "child", Some(prefix(&parent)));
    let p = ListParams {
        filter: TaskFilter::default(),
        sort: "created_at".to_string(),
        reverse: false,
        limit: None,
        flat: false,
    };
    let resp = list::run(&svc, p, "text").unwrap();
    let data = resp.data.unwrap();
    assert_eq!(data.count, 2);
    let msg = resp.message.unwrap();
    let lines: Vec<&str> = msg.lines().collect();
    assert_eq!(lines.len(), 3);
    assert_eq!(
        lines[0],
        "ID         Status         Priority   Title                          Project          Label"
    );
    assert!(lines[1].starts_with(&prefix(&parent)));
    assert!(lines[1].contains(" todo           high       parent "));
    assert!(lines[2].contains("  child"));
    assert_eq!(format_text_table(&data.tasks), msg);
}

#[test]
fn list_limit_and_priority_sort() {
    let mut svc = service();
    let mut low = params("low", None);
    low.priority = Priority::Low;
    add::run(&mut svc, low, "text", "en").unwrap();
    new_task(&mut svc, "high", None);
    let p = ListParams {
        filter: TaskFilter::default(),
        sort: "priority".to_string(),
        reverse: false,
        limit: Some(1),
        flat: true,
    };
    let resp = list::run(&svc, p, "json").unwrap();
    assert!(resp.message.is_none());
    let data = resp.data.unwrap();
    assert_eq!(data.count, 1);
    assert_eq!(data.tasks[0].title, "high");
}

#[test]
fn search_counts_matches() {
    let mut svc = service();
    new_task(&mut svc, "Alpha", None);
    new_task(&mut svc, "beta", None);
    let resp = search_run(&svc, "ALPHA", &TaskFilter::default(), "text").unwrap();
    assert_eq!(resp.message.as_deref(), Some("Found 1 task(s)"));
}

#[test]
fn show_subtask_names_its_parent() {
    let mut svc = service();
    let parent = new_task(&mut svc, "parent", None);
    let child = new_task(&mut svc, "child", Some(prefix(&parent)));
    let resp = show::run(&svc, &prefix(&child), "json").unwrap();
    let data = resp.data.unwrap();
    assert!(data.subtasks.is_none());
    let p = data.parent.unwrap();
    assert_eq!(p.id, id_text(parent.id));
    assert_eq!(p.title, "parent");
    let resp = show::run(&svc, &prefix(&parent), "text").unwrap();
    let msg = resp.message.unwrap();
    assert!(msg.starts_with(&format!("ID:          {}\nTitle:       parent\n", id_text(parent.id))));
    assert!(msg.contains("\nSubtasks (1):\n  "));
    assert!(msg.contains("Created at:  "));
    assert!(msg.contains(" UTC"));
}

#[test]
fn show_finds_archived_tasks() {
    let mut svc = service();
    let t = new_task(&mut svc, "done one", None);
    status::run(&mut svc, &prefix(&t), "done", "json", "en").unwrap();
    let resp = show::run(&svc, &prefix(&t), "json").unwrap();
    assert_eq!(resp.data.unwrap().task.title, "done one");
}

#[test]
fn stats_text_lists_sections() {
    let mut svc = service();
    new_task(&mut svc, "one", None);
    let st = svc.stats(&TaskFilter::default()).unwrap();
    let text = format_stats(&st);
    assert_eq!(
        text,
        "Total: 1\n  todo: 1, in_progress: 0, done: 0, cancelled: 0\nPriority:\n  high: 1\nProjects:\n  app: 1\nCreators:\n  human: 1"
    );
}

#[test]
fn config_decides_and_validates() {
    let mut p = ConfigParams {
        show: false,
        mode: None,
        icons: None,
        max_title_length: None,
        max_content_length: None,
        max_project_length: None,
        reset: false,
        yes: false,
    };
    assert_eq!(config_run(&p), ConfigAction::Show);
    p.mode = Some("emacs".to_string());
    assert_eq!(config_run(&p), ConfigAction::Update);
    let mut s = Settings::default();
    match apply_changes(&mut s, &p) {
        Err(AppError::InvalidInput(m)) => {
            assert_eq!(m, "Invalid keybinding mode: 'emacs' (valid: vi, default)")
        }
        _ => panic!("accepted an unknown mode"),
    }
    p.mode = Some("vi".to_string());
    p.icons = Some("nerd".to_string());
    p.max_title_length = Some(50);
    apply_changes(&mut s, &p).unwrap();
    assert_eq!(s.keybindings.mode, "vi");
    assert_eq!(s.icons.style, "nerd");
    assert_eq!(s.max_title_length, 50);
    p.reset = true;
    assert_eq!(config_run(&p), ConfigAction::Reset);
    assert_eq!(reset_response(false).message.as_deref(), Some("No local settings to reset"));
}

#[test]
fn responses_carry_what_they_are_given() {
    let r = CliResponse::success_with_message(3, "m".to_string());
    assert!(r.success && r.data == Some(3) && r.error.is_none());
    let e = CliResponse::<()>::error("bad".to_string());
    assert!(!e.success);
    assert_eq!(e.error.as_deref(), Some("bad"));
}

#[test]
fn edit_leaves_archived_tasks_alone() {
    let mut svc = service();
    let t = new_task(&mut svc, "finished", None);
    status::run(&mut svc, &prefix(&t), "done", "json", "en").unwrap();
    let p = edit::EditParams {
        id: prefix(&t),
        title: Some("renamed".to_string()),
        content: None,
        priority: None,
        label: None,
        project: None,
        parent: None,
        recurrence: None,
    };
    match edit::run(&mut svc, p, "text", "en") {
        Err(AppError::TaskNotFound(m)) => assert_eq!(m, prefix(&t)),
        _ => panic!("an archived task was edited"),
    }
    assert_eq!(svc.get_task_from_archive(&prefix(&t)).unwrap().title, "finished");
}
