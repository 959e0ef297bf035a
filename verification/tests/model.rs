use todos::config::paths::{
    archive_path, choose_data_dir, db_path, fallback_dir, path_with_extension, search_dirs, settings_path,
    tasks_path,
};
use todos::config::settings::{PartialSettings, Settings};
use todos::error::AppError;
use todos::i18n::{en, get_message, ja, Message};
use todos::model::filter::{apply_filter, TaskFilter};
use todos::model::order::{compare_tasks, sort_tasks, SortKey};
use todos::model::tree::tree_sort;
use todos::model::recurrence::{DayOfWeek, Recurrence};
use todos::cli::show::{format_text_output, ShowData};
use todos::model::task::{full_id_text, short_id_text, CreatedBy, Priority, Status, Task, Timestamp};
use todos::store::json_store::{after_lock_attempt, JsonStore, LockStep};
use todos::store::schema::TaskData;
use todos::text::{number_text, pad_text, text_order};

fn at(secs: i64) -> Timestamp {
    Timestamp { secs, nanos: 0 }
}

fn task(id: u128, title: &str, priority: Priority, created_secs: i64) -> Task {
    let created_at = at(created_secs);
    Task {
        id,
        title: title.to_string(),
        content: None,
        status: Status::Todo,
        priority,
        created_by: CreatedBy::Human,
        label: None,
        project: None,
        parent_id: None,
        recurrence: Recurrence::Never,
        created_at,
        updated_at: created_at,
        completed_at: None,
    }
}

fn shown(t: Task) -> Vec<String> {
    let data = ShowData { task: t, subtasks: None, parent: None };
    format_text_output(&data).lines().map(|l| l.to_string()).collect()
}

#[test]
fn identifiers_print_hyphenated() {
    let id: u128 = 0x67e5504410b1426f9247bb680e5fe0c8;
    assert_eq!(shown(task(id, "t", Priority::Unset, 0))[0], "ID:          67e55044-10b1-426f-9247-bb680e5fe0c8");
    assert_eq!(short_id_text(id), "67e55044");
    assert_eq!(full_id_text(id), "67e55044-10b1-426f-9247-bb680e5fe0c8");
}

#[test]
fn timestamps_print_in_utc() {
    let mut t = task(1, "t", Priority::Unset, 0);
    t.updated_at = Timestamp { secs: 1, nanos: 500_000_000 };
    let lines = shown(t);
    assert!(lines.contains(&"Created at:  1970-01-01 00:00:00 UTC".to_string()));
    assert!(lines.contains(&"Updated at:  1970-01-01 00:00:01.500 UTC".to_string()));
    let mut t = task(1, "t", Priority::Unset, 0);
    t.updated_at = Timestamp { secs: 1, nanos: 123_456_789 };
    assert!(shown(t).contains(&"Updated at:  1970-01-01 00:00:01.123456789 UTC".to_string()));
    let lines = shown(task(1, "t", Priority::Unset, i64::MAX));
    assert!(lines.contains(&"Created at:  ?".to_string()));
}

#[test]
fn names_parse_back() {
    for s in [Status::Todo, Status::InProgress, Status::Done, Status::Cancelled] {
        assert_eq!(Status::parse(s.as_text()).unwrap(), s);
    }
    for p in [Priority::Unset, Priority::Low, Priority::Medium, Priority::High, Priority::Critical] {
        assert_eq!(Priority::parse(p.as_text()).unwrap(), p);
    }
    assert_eq!(Status::parse("later").unwrap_err(), "Invalid status: 'later'");
    assert_eq!(CreatedBy::parse("ai").unwrap(), CreatedBy::Ai);
}

#[test]
fn recurrences_parse() {
    assert!(matches!(Recurrence::parse("Daily"), Ok(Recurrence::Daily)));
    match Recurrence::parse("mon, WED") {
        Ok(Recurrence::DaysOfWeek(d)) => assert_eq!(d, vec![DayOfWeek::Monday, DayOfWeek::Wednesday]),
        _ => panic!("days not parsed"),
    }
    assert_eq!(Recurrence::parse("mon,funday").unwrap_err(), "Invalid day: 'funday'");
    assert_eq!(DayOfWeek::from_short("sun"), Some(DayOfWeek::Sunday));
    assert_eq!(DayOfWeek::from_short("xyz"), None);
}

#[test]
fn sorting_is_stable_and_reversible() {
    let mut v = vec![
        task(1, "b", Priority::Low, 3),
        task(2, "a", Priority::High, 1),
        task(3, "c", Priority::Low, 2),
    ];
    sort_tasks(&mut v, "priority", false);
    assert_eq!(v.iter().map(|t| t.id).collect::<Vec<_>>(), vec![2, 1, 3]);
    sort_tasks(&mut v, "title", true);
    assert_eq!(v.iter().map(|t| t.id).collect::<Vec<_>>(), vec![3, 1, 2]);
    sort_tasks(&mut v, "anything", false);
    assert_eq!(v.iter().map(|t| t.id).collect::<Vec<_>>(), vec![2, 3, 1]);
}

#[test]
fn filters_select_tasks() {
    let mut t = task(1, "x", Priority::High, 0);
    t.project = Some("app".to_string());
    let mut f = TaskFilter::default();
    assert!(apply_filter(&t, &f));
    f.project = Some("other".to_string());
    assert!(!apply_filter(&t, &f));
    f.project = Some("app".to_string());
    f.priority = Some(Priority::High);
    assert!(apply_filter(&t, &f));
    t.status = Status::Done;
    assert!(!apply_filter(&t, &f));
    f.include_done = true;
    assert!(apply_filter(&t, &f));
}

#[test]
fn messages_in_both_languages() {
    assert_eq!(en::get(Message::TaskDeletedWithSubtasks(3)), "Task deleted with 3 subtask(s)");
    assert_eq!(ja::get(Message::TaskDeletedWithSubtasks(3)), "タスクとサブタスク3件を削除しました");
    assert_eq!(ja::get(Message::Initialized("/p".to_string())), "/p に初期化しました");
    assert_eq!(get_message(Message::TaskRestored, "ja"), "復元しました");
    assert_eq!(get_message(Message::TaskRestored, "de"), "Task restored");
    assert_eq!(
        get_message(Message::TaskArchivedWithSubtasks(2), "en"),
        "Task archived with 2 subtask(s)"
    );
}

#[test]
fn settings_labels_and_overrides() {
    let mut s = Settings::default();
    assert_eq!(s.locale, "ja");
    s.extra_labels = vec!["perf".to_string(), "bug".to_string()];
    let labels = s.all_labels();
    assert_eq!(labels.len(), 7);
    assert_eq!(labels[6], "perf");
    let partial = PartialSettings {
        locale: Some("en".to_string()),
        keybindings: None,
        icons: None,
        extra_labels: vec!["ops".to_string()],
        extra_projects: vec![],
        max_title_length: Some(10),
        max_content_length: None,
        max_project_length: None,
    };
    s.apply_partial(&partial);
    assert_eq!(s.locale, "en");
    assert_eq!(s.max_title_length, 10);
    assert!(s.extra_labels.contains(&"ops".to_string()));
}

#[test]
fn settings_read_back_after_save() {
    let mut s = Settings::default();
    s.locale = "en".to_string();
    s.keybindings.mode = "vi".to_string();
    s.icons.style = "nerd".to_string();
    s.extra_labels = vec!["perf".to_string(), "ops".to_string()];
    s.extra_projects = vec!["web".to_string()];
    s.max_title_length = 50;
    s.max_content_length = 60;
    s.max_project_length = 70;
    let mut read = Settings::default();
    read.apply_partial(&s.to_partial());
    assert_eq!(read.locale, "en");
    assert_eq!(read.keybindings.mode, "vi");
    assert_eq!(read.icons.style, "nerd");
    assert_eq!(read.extra_labels, s.extra_labels);
    assert_eq!(read.extra_projects, s.extra_projects);
    assert_eq!(read.builtin_labels, Settings::default().builtin_labels);
    assert_eq!((read.max_title_length, read.max_content_length, read.max_project_length), (50, 60, 70));
    // Labels stored twice come back once.
    s.extra_labels = vec!["perf".to_string(), "perf".to_string()];
    let mut again = Settings::default();
    again.apply_partial(&s.to_partial());
    assert_eq!(again.extra_labels, vec!["perf".to_string()]);
}

#[test]
fn data_files_live_in_the_data_dir() {
    assert_eq!(tasks_path("/w/.todos"), "/w/.todos/tasks.json");
    assert_eq!(archive_path("/w/.todos/"), "/w/.todos/archive.json");
    assert_eq!(settings_path(""), "settings.json");
    assert_eq!(db_path("/w/.todos"), "/w/.todos/todos.db");
}

#[test]
fn newer_schema_is_refused() {
    let data = TaskData { version: 9, tasks: vec![] };
    match TaskData::checked(data) {
        Err(e) => {
            assert!(matches!(e, AppError::SchemaVersionTooNew(9, 1)));
            assert_eq!(e.message(), "Schema version 9 is newer than supported version 1");
        }
        Ok(_) => panic!("accepted a newer schema"),
    }
    assert!(TaskData::checked(TaskData::empty()).is_ok());
}

#[test]
fn error_messages() {
    let e = AppError::AmbiguousId { prefix: "abcd".to_string(), count: 2 };
    assert_eq!(e.message(), "Ambiguous ID 'abcd': 2 tasks match");
    assert_eq!(AppError::NestingTooDeep.message(), "Nesting too deep: subtasks cannot have children");
}

#[test]
fn text_helpers() {
    assert_eq!(number_text(0), "0");
    assert_eq!(number_text(1234567890), "1234567890");
    assert_eq!(pad_text("ab", 4), "ab  ");
    assert_eq!(pad_text("abcdef", 4), "abcdef");
    assert_eq!(text_order("abc", "abd"), -1);
    assert_eq!(text_order("b", "abc"), 1);
    assert_eq!(text_order("same", "same"), 0);
}

#[test]
fn extensions_are_replaced_or_added() {
    assert_eq!(path_with_extension("/w/.todos/tasks.json", "json.lock"), "/w/.todos/tasks.json.lock");
    assert_eq!(path_with_extension("a.b/file", "json.tmp"), "a.b/file.json.tmp");
    assert_eq!(path_with_extension("dir/.hidden", "x"), "dir/.hidden.x");
    assert_eq!(path_with_extension("archive.tar.gz", "zip"), "archive.tar.zip");
    let store = todos::store::json_store::JsonStore::new(
        "/d/archive.json".to_string(),
        TaskData::empty(),
    );
    assert_eq!(store.lock_path(), "/d/archive.json.lock");
    assert_eq!(store.temp_path(), "/d/archive.json.tmp");
}

#[test]
fn data_dir_search_walks_up_to_home() {
    assert_eq!(
        search_dirs("/home/u/p/q", Some("/home/u")),
        vec!["/home/u/p/q/.todos", "/home/u/p/.todos", "/home/u/.todos"]
    );
    assert_eq!(search_dirs("/tmp/x", Some("/home/u")), vec!["/tmp/x/.todos"]);
    assert_eq!(search_dirs("/a/b", None), vec!["/a/b/.todos", "/a/.todos", "/.todos"]);
    assert_eq!(fallback_dir("/a/b", Some("/home/u")), "/home/u/.todos");
    assert_eq!(fallback_dir("/a/b", None), "/a/b/.todos");
}

#[test]
fn tree_order_lists_every_task_once() {
    let root_b = task(1, "b", Priority::Low, 20);
    let root_a = task(2, "a", Priority::High, 10);
    let mut child = task(3, "c", Priority::Unset, 30);
    child.parent_id = Some(1);
    let mut orphan = task(4, "d", Priority::Unset, 5);
    orphan.parent_id = Some(99);
    let tasks = vec![orphan, child, root_b, root_a];
    let order = tree_sort(&tasks, SortKey::CreatedAt, false);
    let ids: Vec<u128> = order.iter().map(|t| t.id).collect();
    assert_eq!(ids, vec![2, 1, 3, 4]);
    let by_title = tree_sort(&tasks, SortKey::Title, true);
    let ids: Vec<u128> = by_title.iter().map(|t| t.id).collect();
    assert_eq!(ids, vec![1, 3, 2, 4]);
}

#[test]
fn store_reads_back_what_was_written() {
    let mut store = JsonStore::new("tasks.json".to_string(), TaskData::empty());
    assert!(!store.needs_save());
    store.create(task(1, "one", Priority::Low, 1));
    store.create(task(2, "two", Priority::Low, 2));
    assert!(store.needs_save());
    assert_eq!(store.get(1).unwrap().title, "one");
    let mut changed = task(1, "uno", Priority::High, 1);
    changed.updated_at = at(5);
    store.update(changed);
    assert_eq!(store.get(1).unwrap().title, "uno");
    assert_eq!(store.get(2).unwrap().title, "two");
    assert_eq!(store.delete(1).unwrap().title, "uno");
    assert!(store.get(1).is_none());
    assert!(store.delete(1).is_none());
    assert_eq!(store.list(&TaskFilter::default()).len(), 1);
    assert_eq!(store.lock_path(), "tasks.json.lock");
}

#[test]
fn lock_is_tried_three_times() {
    assert_eq!(after_lock_attempt(0, true), LockStep::Locked);
    assert_eq!(after_lock_attempt(0, false), LockStep::WaitAndRetry);
    assert_eq!(after_lock_attempt(1, false), LockStep::WaitAndRetry);
    assert_eq!(after_lock_attempt(2, false), LockStep::GiveUp);
    assert_eq!(after_lock_attempt(2, true), LockStep::Locked);
}

#[test]
fn times_within_one_second_order_by_nanoseconds() {
    let mut a = task(1, "a", Priority::Unset, 10);
    let mut b = task(2, "b", Priority::Unset, 10);
    a.created_at = Timestamp { secs: 10, nanos: 7 };
    b.created_at = Timestamp { secs: 10, nanos: 5 };
    assert_eq!(compare_tasks(&a, &b, SortKey::CreatedAt, false), 1);
    assert_eq!(compare_tasks(&b, &a, SortKey::CreatedAt, false), -1);
    b.created_at = Timestamp { secs: 9, nanos: 999_999_999 };
    assert_eq!(compare_tasks(&a, &b, SortKey::CreatedAt, false), 1);
}

#[test]
fn store_changes_keep_the_format_version() {
    let mut store = JsonStore::new("tasks.json".to_string(), TaskData { version: 0, tasks: Vec::new() });
    store.create(task(1, "one", Priority::Low, 1));
    store.update(task(1, "uno", Priority::High, 1));
    store.create(task(2, "two", Priority::Low, 2));
    store.delete(2);
    assert_eq!(store.data().version, 0);
}

#[test]
fn data_dir_is_the_nearest_existing_one() {
    let existing = vec!["/home/u/p/.todos".to_string(), "/home/u/.todos".to_string()];
    assert_eq!(choose_data_dir("/home/u/p/q", Some("/home/u"), &existing), "/home/u/p/.todos");
    assert_eq!(choose_data_dir("/home/u/p/q", Some("/home/u"), &Vec::new()), "/home/u/.todos");
    let above_home = vec!["/home/.todos".to_string()];
    assert_eq!(choose_data_dir("/home/u/p", Some("/home/u"), &above_home), "/home/u/.todos");
    let outside = vec!["/tmp/.todos".to_string()];
    assert_eq!(choose_data_dir("/tmp/x", Some("/home/u"), &outside), "/home/u/.todos");
    let root = vec!["/.todos".to_string()];
    assert_eq!(choose_data_dir("/a/b", None, &root), "/.todos");
    assert_eq!(choose_data_dir("/a/b", None, &Vec::new()), "/a/b/.todos");
}
