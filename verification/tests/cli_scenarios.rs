use todos::cli::archive::{self, ArchiveParams};
use todos::cli::config::{apply_changes, reset_response, run as config_run, ConfigAction, ConfigParams};
use todos::cli::list::{self, ListParams};
use todos::cli::{add, delete, init, search, show, stats, status};
use todos::config::settings::{PartialSettings, Settings};
use todos::error::AppError;
use todos::model::filter::TaskFilter;
use todos::model::recurrence::Recurrence;
use todos::model::task::{CreatedBy, Priority, Status, Task};
use todos::service::task_service::{BatchAction, TaskService};
use todos::store::json_store::JsonStore;
use todos::store::schema::TaskData;

/// The hyphenated form of an identifier.
fn id_text(id: u128) -> String {
    uuid::Uuid::from_u128(id).to_string()
}

fn service_with(settings: Settings) -> TaskService {
    TaskService::new(
        JsonStore::new("tasks.json".to_string(), TaskData::empty()),
        settings,
        JsonStore::new("archive.json".to_string(), TaskData::empty()),
    )
}

fn setup() -> TaskService {
    service_with(Settings::default())
}

/// Settings as loaded from a data directory whose settings file holds `partial`.
fn settings_from(partial: PartialSettings) -> Settings {
    let mut s = Settings::default();
    s.apply_partial(&partial);
    s
}

fn no_partial() -> PartialSettings {
    PartialSettings {
        locale: None,
        keybindings: None,
        icons: None,
        extra_labels: Vec::new(),
        extra_projects: Vec::new(),
        max_title_length: None,
        max_content_length: None,
        max_project_length: None,
    }
}

/// Options of `add`, as the command line gives them.
struct Add<'a> {
    title: &'a str,
    content: Option<&'a str>,
    priority: Priority,
    created_by: CreatedBy,
    label: Option<&'a str>,
    project: Option<&'a str>,
    parent: Option<String>,
}

fn opts(title: &str) -> Add<'_> {
    Add {
        title,
        content: None,
        priority: Priority::Unset,
        created_by: CreatedBy::Human,
        label: None,
        project: None,
        parent: None,
    }
}

fn params(a: Add<'_>, recurrence: Recurrence) -> add::AddParams {
    add::AddParams {
        title: a.title.to_string(),
        content: a.content.map(|c| c.to_string()),
        priority: a.priority,
        created_by: a.created_by,
        label: a.label.map(|l| l.to_string()),
        project: a.project.map(|p| p.to_string()),
        parent: a.parent,
        recurrence,
    }
}

fn try_add(svc: &mut TaskService, a: Add<'_>) -> Result<Task, AppError> {
    let locale = svc.settings().locale.clone();
    add::run(svc, params(a, Recurrence::Never), "json", &locale).map(|r| r.data.unwrap().task)
}

fn add_task(svc: &mut TaskService, a: Add<'_>) -> Task {
    try_add(svc, a).unwrap()
}

fn add_title(svc: &mut TaskService, title: &str) -> Task {
    add_task(svc, opts(title))
}

fn prefix(t: &Task) -> String {
    id_text(t.id)[..8].to_string()
}

fn child_of<'a>(title: &'a str, parent: &Task) -> Add<'a> {
    let mut a = opts(title);
    a.parent = Some(prefix(parent));
    a
}

/// The filter that `list` builds from its options.
fn list_filter(status: Option<Status>, all: bool) -> TaskFilter {
    TaskFilter::of_criteria(status, None, None, None, None, all)
}

fn list_params(filter: TaskFilter) -> ListParams {
    ListParams { filter, sort: "created_at".to_string(), reverse: false, limit: None, flat: false }
}

fn list_tasks(svc: &TaskService, p: ListParams) -> (usize, Vec<Task>) {
    let d = list::run(svc, p, "json").unwrap().data.unwrap();
    (d.count, d.tasks)
}

fn list_default(svc: &TaskService) -> (usize, Vec<Task>) {
    list_tasks(svc, list_params(list_filter(None, false)))
}

fn count_of(entries: &[(String, usize)], key: &str) -> usize {
    entries.iter().find(|(k, _)| k == key).map(|(_, n)| *n).unwrap_or(0)
}

fn batch_add(title: &str) -> BatchAction {
    BatchAction {
        action: Some("add".to_string()),
        id: None,
        title: Some(title.to_string()),
        description: None,
        priority: None,
        created_by: None,
        label: None,
        project: None,
        parent_id: None,
        parent: None,
        recurrence: None,
        status: None,
    }
}

fn batch_on(action: &str, id: &str) -> BatchAction {
    let mut a = batch_add("");
    a.action = Some(action.to_string());
    a.title = None;
    a.id = Some(id.to_string());
    a
}

fn config_params() -> ConfigParams {
    ConfigParams {
        show: false,
        mode: None,
        icons: None,
        max_title_length: None,
        max_content_length: None,
        max_project_length: None,
        reset: false,
        yes: false,
    }
}

// === init ===

#[test]
fn init_refuses_overwrite_without_force() {
    assert!(init::run("/tmp/p/.todos".to_string(), false, false, "ja").is_ok());
    match init::run("/tmp/p/.todos".to_string(), true, false, "ja") {
        Err(AppError::AlreadyInitialized) => {}
        _ => panic!("an existing data directory was overwritten without --force"),
    }
}

#[test]
fn init_force_overwrites() {
    assert!(init::run("/tmp/p/.todos".to_string(), true, true, "ja").is_ok());
}

#[test]
fn init_json_output() {
    let resp = init::run("/tmp/p/.todos".to_string(), false, false, "en").unwrap();
    assert!(resp.success);
    assert_eq!(resp.data.as_deref(), Some("/tmp/p/.todos"));
    assert_eq!(resp.message.as_deref(), Some("Initialized todos in /tmp/p/.todos"));
}

// === add ===

#[test]
fn add_basic_task() {
    let mut svc = setup();
    assert!(try_add(&mut svc, opts("テストタスク")).is_ok());
}

#[test]
fn add_with_all_options() {
    let mut svc = setup();
    let mut a = opts("API実装");
    a.content = Some("REST APIを実装する");
    a.priority = Priority::High;
    a.created_by = CreatedBy::Ai;
    a.label = Some("feature");
    a.project = Some("user-service");
    assert!(try_add(&mut svc, a).is_ok());
}

#[test]
fn add_json_output_contains_task() {
    let mut svc = setup();
    let resp = add::run(&mut svc, params(opts("テスト"), Recurrence::Never), "json", "ja").unwrap();
    assert!(resp.success);
    let t = resp.data.unwrap().task;
    assert_eq!(id_text(t.id).len(), 36);
    assert_eq!(t.title, "テスト");
    assert_eq!(t.status.as_text(), "todo");
    assert_eq!(t.priority.as_text(), "none");
    assert_eq!(t.created_by.as_text(), "human");
}

#[test]
fn add_with_priority() {
    let mut svc = setup();
    let mut a = opts("緊急");
    a.priority = Priority::Critical;
    assert_eq!(add_task(&mut svc, a).priority.as_text(), "critical");
}

#[test]
fn add_invalid_label_fails() {
    let mut svc = setup();
    let mut a = opts("テスト");
    a.label = Some("unknown_label");
    assert!(try_add(&mut svc, a).is_err());
}

#[test]
fn add_subtask() {
    let mut svc = setup();
    let parent = add_title(&mut svc, "親タスク");
    let child = add_task(&mut svc, child_of("子タスク", &parent));
    assert_eq!(child.parent_id, Some(parent.id));
}

#[test]
fn add_subtask_inherits_project() {
    let mut svc = setup();
    let mut a = opts("親");
    a.project = Some("user-service");
    let parent = add_task(&mut svc, a);
    let child = add_task(&mut svc, child_of("子", &parent));
    assert_eq!(child.project.as_deref(), Some("user-service"));
}

#[test]
fn add_subtask_of_subtask_fails() {
    let mut svc = setup();
    let parent = add_title(&mut svc, "親");
    let child = add_task(&mut svc, child_of("子", &parent));
    assert!(try_add(&mut svc, child_of("孫", &child)).is_err());
}

#[test]
fn add_subtask_with_recurrence_fails() {
    let mut svc = setup();
    let parent = add_title(&mut svc, "親");
    let p = params(child_of("子", &parent), Recurrence::Daily);
    assert!(add::run(&mut svc, p, "json", "ja").is_err());
}

// === show ===

#[test]
fn show_task_by_prefix() {
    let mut svc = setup();
    let mut a = opts("テスト");
    a.priority = Priority::High;
    let t = add_task(&mut svc, a);
    let shown = show::run(&svc, &prefix(&t), "json").unwrap().data.unwrap().task;
    assert_eq!(shown.title, "テスト");
    assert_eq!(shown.priority.as_text(), "high");
}

#[test]
fn show_not_found() {
    let svc = setup();
    assert!(show::run(&svc, "0000", "json").is_err());
}

#[test]
fn show_prefix_too_short() {
    let mut svc = setup();
    add_title(&mut svc, "テスト");
    assert!(show::run(&svc, "ab", "json").is_err());
}

#[test]
fn show_parent_includes_subtasks() {
    let mut svc = setup();
    let parent = add_title(&mut svc, "親");
    add_task(&mut svc, child_of("子1", &parent));
    add_task(&mut svc, child_of("子2", &parent));
    let data = show::run(&svc, &prefix(&parent), "json").unwrap().data.unwrap();
    assert_eq!(data.subtasks.unwrap().len(), 2);
}

#[test]
fn show_subtask_includes_parent_info() {
    let mut svc = setup();
    let parent = add_title(&mut svc, "親タスク");
    let child = add_task(&mut svc, child_of("子", &parent));
    let data = show::run(&svc, &prefix(&child), "json").unwrap().data.unwrap();
    assert_eq!(data.parent.unwrap().title, "親タスク");
}

// === list ===

#[test]
fn list_empty() {
    let svc = setup();
    let (count, tasks) = list_default(&svc);
    assert_eq!(count, 0);
    assert_eq!(tasks.len(), 0);
}

#[test]
fn list_shows_added_tasks() {
    let mut svc = setup();
    add_title(&mut svc, "タスク1");
    add_title(&mut svc, "タスク2");
    assert_eq!(list_default(&svc).0, 2);
}

#[test]
fn list_filter_by_status() {
    let mut svc = setup();
    add_title(&mut svc, "タスク1");
    add_title(&mut svc, "タスク2");
    assert_eq!(list_default(&svc).0, 2);
    let (count, _) = list_tasks(&svc, list_params(list_filter(Some(Status::InProgress), false)));
    assert_eq!(count, 0);
}

#[test]
fn list_filter_by_priority() {
    let mut svc = setup();
    let mut low = opts("低");
    low.priority = Priority::Low;
    add_task(&mut svc, low);
    let mut high = opts("高");
    high.priority = Priority::High;
    add_task(&mut svc, high);
    let mut f = list_filter(None, false);
    f.priority = Some(Priority::High);
    let (count, tasks) = list_tasks(&svc, list_params(f));
    assert_eq!(count, 1);
    assert_eq!(tasks[0].title, "高");
}

#[test]
fn list_filter_by_label() {
    let mut svc = setup();
    let mut a = opts("バグ");
    a.label = Some("bug");
    add_task(&mut svc, a);
    let mut b = opts("機能");
    b.label = Some("feature");
    add_task(&mut svc, b);
    let mut f = list_filter(None, false);
    f.label = Some("bug".to_string());
    assert_eq!(list_tasks(&svc, list_params(f)).0, 1);
}

#[test]
fn list_filter_by_project() {
    let mut svc = setup();
    let mut a = opts("A");
    a.project = Some("svc-a");
    add_task(&mut svc, a);
    let mut b = opts("B");
    b.project = Some("svc-b");
    add_task(&mut svc, b);
    let mut f = list_filter(None, false);
    f.project = Some("svc-a".to_string());
    assert_eq!(list_tasks(&svc, list_params(f)).0, 1);
}

#[test]
fn list_filter_by_created_by() {
    let mut svc = setup();
    add_title(&mut svc, "人間");
    let mut a = opts("AI");
    a.created_by = CreatedBy::Ai;
    add_task(&mut svc, a);
    let mut f = list_filter(None, false);
    f.created_by = Some(CreatedBy::Ai);
    let (count, tasks) = list_tasks(&svc, list_params(f));
    assert_eq!(count, 1);
    assert_eq!(tasks[0].title, "AI");
}

#[test]
fn list_multiple_filters() {
    let mut svc = setup();
    for (title, priority, label) in
        [("A", Priority::High, "bug"), ("B", Priority::Low, "bug"), ("C", Priority::High, "feature")]
    {
        let mut a = opts(title);
        a.priority = priority;
        a.label = Some(label);
        add_task(&mut svc, a);
    }
    let mut f = list_filter(None, false);
    f.priority = Some(Priority::High);
    f.label = Some("bug".to_string());
    let (count, tasks) = list_tasks(&svc, list_params(f));
    assert_eq!(count, 1);
    assert_eq!(tasks[0].title, "A");
}

#[test]
fn list_sort_by_priority() {
    let mut svc = setup();
    let mut low = opts("低");
    low.priority = Priority::Low;
    add_task(&mut svc, low);
    let mut high = opts("高");
    high.priority = Priority::High;
    add_task(&mut svc, high);
    let mut p = list_params(list_filter(None, false));
    p.sort = "priority".to_string();
    assert_eq!(list_tasks(&svc, p).1[0].title, "高");
}

#[test]
fn list_limit() {
    let mut svc = setup();
    for i in 0..5 {
        add_title(&mut svc, &format!("タスク{i}"));
    }
    let mut p = list_params(list_filter(None, false));
    p.limit = Some(3);
    assert_eq!(list_tasks(&svc, p).1.len(), 3);
}

#[test]
fn list_tree_display() {
    let mut svc = setup();
    let parent = add_title(&mut svc, "親");
    add_task(&mut svc, child_of("子", &parent));
    let (count, tasks) = list_default(&svc);
    assert_eq!(count, 2);
    assert_eq!(tasks[0].title, "親");
    assert_eq!(tasks[1].title, "子");
    assert!(tasks[1].parent_id.is_some());
}

#[test]
fn list_flat_display() {
    let mut svc = setup();
    let mut a = opts("親");
    a.priority = Priority::Low;
    let parent = add_task(&mut svc, a);
    let mut c = child_of("子", &parent);
    c.priority = Priority::High;
    add_task(&mut svc, c);
    let mut p = list_params(list_filter(None, false));
    p.flat = true;
    p.sort = "priority".to_string();
    assert_eq!(list_tasks(&svc, p).1[0].title, "子");
}

#[test]
fn list_all_includes_done() {
    let mut svc = setup();
    let t = add_title(&mut svc, "タスク");
    status::run(&mut svc, &prefix(&t), "done", "json", "ja").unwrap();
    assert_eq!(list_default(&svc).0, 0);
    assert_eq!(list_tasks(&svc, list_params(list_filter(None, true))).0, 0);
    let p = ArchiveParams {
        filter: list_filter(None, true),
        query: None,
        sort: "created_at".to_string(),
        reverse: false,
        limit: None,
    };
    assert_eq!(archive::run(&svc, p, "json").unwrap().data.unwrap().count, 1);
}

#[test]
fn list_text_output_has_header() {
    let mut svc = setup();
    add_title(&mut svc, "テスト");
    let resp = list::run(&svc, list_params(list_filter(None, false)), "text").unwrap();
    assert!(resp.message.unwrap().contains("ID"));
}

// === status ===

#[test]
fn status_change_to_done() {
    let mut svc = setup();
    let t = add_title(&mut svc, "テスト");
    let d = status::run(&mut svc, &prefix(&t), "done", "json", "ja").unwrap().data.unwrap();
    assert_eq!(d.task.status.as_text(), "done");
    assert!(d.task.completed_at.is_some());
}

#[test]
fn status_change_to_in_progress() {
    let mut svc = setup();
    let t = add_title(&mut svc, "テスト");
    let d = status::run(&mut svc, &prefix(&t), "in_progress", "json", "ja").unwrap().data.unwrap();
    assert_eq!(d.task.status.as_text(), "in_progress");
}

#[test]
fn status_change_to_cancelled() {
    let mut svc = setup();
    let t = add_title(&mut svc, "テスト");
    let d = status::run(&mut svc, &prefix(&t), "cancelled", "json", "ja").unwrap().data.unwrap();
    assert_eq!(d.task.status.as_text(), "cancelled");
}

#[test]
fn status_done_sets_completed_at() {
    let mut svc = setup();
    let t = add_title(&mut svc, "テスト");
    status::run(&mut svc, &prefix(&t), "done", "json", "ja").unwrap();
    let shown = show::run(&svc, &prefix(&t), "json").unwrap().data.unwrap().task;
    assert!(shown.completed_at.is_some());
}

#[test]
fn status_revert_from_done_clears_completed_at() {
    let mut svc = setup();
    let t = add_title(&mut svc, "テスト");
    status::run(&mut svc, &prefix(&t), "done", "json", "ja").unwrap();
    let d = status::run(&mut svc, &prefix(&t), "todo", "json", "ja").unwrap().data.unwrap();
    assert!(d.task.completed_at.is_none());
}

// === delete ===

#[test]
fn delete_task_with_yes() {
    let mut svc = setup();
    let t = add_title(&mut svc, "削除対象");
    delete::run(&mut svc, &prefix(&t), true, "text", "ja").unwrap();
    assert_eq!(list_tasks(&svc, list_params(list_filter(None, true))).0, 0);
}

#[test]
fn delete_json_output() {
    let mut svc = setup();
    let t = add_title(&mut svc, "削除対象");
    let resp = delete::run(&mut svc, &prefix(&t), true, "json", "ja").unwrap();
    assert!(resp.success);
    assert_eq!(resp.data.unwrap().task.title, "削除対象");
}

#[test]
fn delete_not_found() {
    let mut svc = setup();
    assert!(delete::run(&mut svc, "0000", true, "text", "ja").is_err());
}

#[test]
fn delete_parent_cascades_to_children() {
    let mut svc = setup();
    let parent = add_title(&mut svc, "親");
    add_task(&mut svc, child_of("子1", &parent));
    add_task(&mut svc, child_of("子2", &parent));
    add_title(&mut svc, "他のタスク");
    let resp = delete::run(&mut svc, &prefix(&parent), true, "json", "ja").unwrap();
    assert!(resp.success);
    let (count, tasks) = list_default(&svc);
    assert_eq!(count, 1);
    assert_eq!(tasks[0].title, "他のタスク");
}

#[test]
fn delete_parent_json_shows_deleted_count() {
    let mut svc = setup();
    let parent = add_title(&mut svc, "親");
    add_task(&mut svc, child_of("子1", &parent));
    add_task(&mut svc, child_of("子2", &parent));
    let resp = delete::run(&mut svc, &prefix(&parent), true, "json", "ja").unwrap();
    assert_eq!(resp.data.unwrap().deleted_subtasks, 2);
}

#[test]
fn delete_child_only() {
    let mut svc = setup();
    let parent = add_title(&mut svc, "親");
    let child = add_task(&mut svc, child_of("子", &parent));
    delete::run(&mut svc, &prefix(&child), true, "text", "ja").unwrap();
    let data = show::run(&svc, &prefix(&parent), "json").unwrap().data.unwrap();
    assert_eq!(data.task.title, "親");
    assert_eq!(data.subtasks.unwrap().len(), 0);
}

// === search ===

fn search_filter(label: Option<&str>) -> TaskFilter {
    TaskFilter::of_criteria(None, None, None, label.map(|l| l.to_string()), None, false)
}

#[test]
fn search_by_title() {
    let mut svc = setup();
    add_title(&mut svc, "API実装");
    add_title(&mut svc, "テスト追加");
    let d = search::run(&svc, "API", &search_filter(None), "json").unwrap().data.unwrap();
    assert_eq!(d.count, 1);
    assert_eq!(d.tasks[0].title, "API実装");
}

#[test]
fn search_by_content() {
    let mut svc = setup();
    let mut a = opts("タスク1");
    a.content = Some("認証機能の実装");
    add_task(&mut svc, a);
    let mut b = opts("タスク2");
    b.content = Some("テスト追加");
    add_task(&mut svc, b);
    let d = search::run(&svc, "認証", &search_filter(None), "json").unwrap().data.unwrap();
    assert_eq!(d.count, 1);
}

#[test]
fn search_case_insensitive() {
    let mut svc = setup();
    add_title(&mut svc, "API endpoint");
    let d = search::run(&svc, "api", &search_filter(None), "json").unwrap().data.unwrap();
    assert_eq!(d.count, 1);
}

#[test]
fn search_with_filter() {
    let mut svc = setup();
    let mut a = opts("API実装");
    a.label = Some("feature");
    add_task(&mut svc, a);
    let mut b = opts("APIバグ修正");
    b.label = Some("bug");
    add_task(&mut svc, b);
    let d = search::run(&svc, "API", &search_filter(Some("bug")), "json").unwrap().data.unwrap();
    assert_eq!(d.count, 1);
    assert_eq!(d.tasks[0].label.as_deref(), Some("bug"));
}

#[test]
fn search_no_results() {
    let mut svc = setup();
    add_title(&mut svc, "テスト");
    let d = search::run(&svc, "存在しない", &search_filter(None), "json").unwrap().data.unwrap();
    assert_eq!(d.count, 0);
}

#[test]
fn search_is_alias_for_list_query() {
    let mut svc = setup();
    add_title(&mut svc, "検索対象");
    let by_search = search::run(&svc, "検索", &search_filter(None), "json").unwrap().data.unwrap();
    let by_list = search::run(&svc, "検索", &list_filter(None, false), "json").unwrap().data.unwrap();
    assert_eq!(by_search.count, by_list.count);
}

// === stats ===

fn stats_filter() -> TaskFilter {
    TaskFilter::of_criteria(None, None, None, None, None, true)
}

#[test]
fn stats_empty() {
    let svc = setup();
    assert_eq!(stats::run(&svc, &stats_filter(), "json").unwrap().data.unwrap().total, 0);
}

#[test]
fn stats_counts() {
    let mut svc = setup();
    for (title, priority, label, project, by) in [
        ("A", Priority::High, "bug", "svc-a", CreatedBy::Human),
        ("B", Priority::Low, "feature", "svc-a", CreatedBy::Human),
        ("C", Priority::High, "bug", "svc-b", CreatedBy::Ai),
    ] {
        let mut a = opts(title);
        a.priority = priority;
        a.label = Some(label);
        a.project = Some(project);
        a.created_by = by;
        add_task(&mut svc, a);
    }
    let s = stats::run(&svc, &stats_filter(), "json").unwrap().data.unwrap();
    assert_eq!(s.total, 3);
    assert_eq!(count_of(&s.by_status, "todo"), 3);
    assert_eq!(count_of(&s.by_priority, "high"), 2);
    assert_eq!(count_of(&s.by_priority, "low"), 1);
    assert_eq!(count_of(&s.by_label, "bug"), 2);
    assert_eq!(count_of(&s.by_label, "feature"), 1);
    assert_eq!(count_of(&s.by_project, "svc-a"), 2);
    assert_eq!(count_of(&s.by_project, "svc-b"), 1);
    assert_eq!(count_of(&s.by_creator, "human"), 2);
    assert_eq!(count_of(&s.by_creator, "ai"), 1);
}

#[test]
fn stats_with_filter() {
    let mut svc = setup();
    let mut a = opts("A");
    a.project = Some("svc-a");
    add_task(&mut svc, a);
    let mut b = opts("B");
    b.project = Some("svc-b");
    add_task(&mut svc, b);
    let f = TaskFilter::of_criteria(None, None, None, None, Some("svc-a".to_string()), true);
    assert_eq!(stats::run(&svc, &f, "json").unwrap().data.unwrap().total, 1);
}

// === config ===

#[test]
fn config_show_default() {
    let mut p = config_params();
    p.show = true;
    assert_eq!(config_run(&p), ConfigAction::Show);
    assert_eq!(Settings::default().locale, "ja");
}

#[test]
fn config_show_includes_builtin_labels() {
    let s = Settings::default();
    assert!(s.builtin_labels.contains(&"bug".to_string()));
    assert!(s.builtin_labels.contains(&"feature".to_string()));
}

#[test]
fn config_mode_vi() {
    let mut p = config_params();
    p.mode = Some("vi".to_string());
    assert_eq!(config_run(&p), ConfigAction::Update);
    let mut s = Settings::default();
    apply_changes(&mut s, &p).unwrap();
    let stored = settings_from(s.to_partial());
    assert_eq!(stored.keybindings.mode, "vi");
}

#[test]
fn config_icons_nerd() {
    let mut p = config_params();
    p.icons = Some("nerd".to_string());
    assert_eq!(config_run(&p), ConfigAction::Update);
    let mut s = Settings::default();
    apply_changes(&mut s, &p).unwrap();
    let stored = settings_from(s.to_partial());
    assert_eq!(stored.icons.style, "nerd");
}

#[test]
fn config_reset_no_local() {
    let mut p = config_params();
    p.reset = true;
    assert_eq!(config_run(&p), ConfigAction::Reset);
    let resp = reset_response(false);
    assert!(resp.success);
    assert!(resp.message.is_some());
}

#[test]
fn extra_labels_used_in_add() {
    let mut partial = no_partial();
    partial.extra_labels = vec!["perf".to_string()];
    let mut svc = service_with(settings_from(partial));
    let mut a = opts("パフォーマンス改善");
    a.label = Some("perf");
    assert!(try_add(&mut svc, a).is_ok());
}

#[test]
fn extra_labels_invalid_still_fails() {
    let mut partial = no_partial();
    partial.extra_labels = vec!["perf".to_string()];
    let mut svc = service_with(settings_from(partial));
    let mut a = opts("テスト");
    a.label = Some("unknown");
    assert!(try_add(&mut svc, a).is_err());
}

// === batch ===

#[test]
fn batch_add_multiple() {
    let mut svc = setup();
    let mut first = batch_add("タスク1");
    first.priority = Some("high".to_string());
    let mut second = batch_add("タスク2");
    second.label = Some("bug".to_string());
    let r = svc.batch(vec![first, second]).unwrap();
    assert_eq!(r.summary.total, 2);
    assert_eq!(r.summary.succeeded, 2);
    assert_eq!(r.summary.failed, 0);
    assert_eq!(list_default(&svc).0, 2);
}

#[test]
fn batch_mixed_operations() {
    let mut svc = setup();
    let t = add_title(&mut svc, "既存タスク");
    let mut new = batch_add("新規");
    new.created_by = Some("ai".to_string());
    let mut done = batch_on("status", &prefix(&t));
    done.status = Some("done".to_string());
    let mut edit = batch_on("edit", &prefix(&t));
    edit.priority = Some("high".to_string());
    let r = svc.batch(vec![new, done, edit]).unwrap();
    assert_eq!(r.summary.succeeded, 3);
}

#[test]
fn batch_partial_failure() {
    let mut svc = setup();
    let actions = vec![batch_add("成功"), batch_on("delete", "0000"), batch_add("これも成功")];
    let r = svc.batch(actions).unwrap();
    assert_eq!(r.summary.total, 3);
    assert_eq!(r.summary.succeeded, 2);
    assert_eq!(r.summary.failed, 1);
    assert!(!r.results[1].success);
}

#[test]
fn batch_add_with_parent() {
    let mut svc = setup();
    let parent = add_title(&mut svc, "親");
    let mut a = batch_add("子タスク");
    a.parent_id = Some(prefix(&parent));
    let r = svc.batch(vec![a]).unwrap();
    assert_eq!(r.summary.succeeded, 1);
    assert!(r.results[0].task.as_ref().unwrap().parent_id.is_some());
}

#[test]
fn batch_single_write() {
    let mut svc = setup();
    let actions: Vec<BatchAction> = (0..100).map(|i| batch_add(&format!("タスク{i}"))).collect();
    let r = svc.batch(actions).unwrap();
    assert_eq!(r.summary.succeeded, 100);
}

#[test]
fn batch_empty_array() {
    let mut svc = setup();
    let r = svc.batch(Vec::new()).unwrap();
    assert_eq!(r.summary.total, 0);
}

// === locale and edge cases ===

#[test]
fn locale_ja_messages() {
    let mut svc = setup();
    let locale = svc.settings().locale.clone();
    let resp = add::run(&mut svc, params(opts("テスト"), Recurrence::Never), "json", &locale).unwrap();
    assert!(resp.success);
    assert!(resp.message.unwrap().contains("作成"));
}

#[test]
fn locale_en_messages() {
    let mut partial = no_partial();
    partial.locale = Some("en".to_string());
    let mut svc = service_with(settings_from(partial));
    let locale = svc.settings().locale.clone();
    let resp = add::run(&mut svc, params(opts("test task"), Recurrence::Never), "json", &locale).unwrap();
    assert!(resp.message.unwrap().contains("created"));
}

#[test]
fn invalid_locale_falls_back_to_en() {
    let mut partial = no_partial();
    partial.locale = Some("xx".to_string());
    let mut svc = service_with(settings_from(partial));
    let locale = svc.settings().locale.clone();
    let resp = add::run(&mut svc, params(opts("test"), Recurrence::Never), "json", &locale).unwrap();
    assert!(resp.message.unwrap().contains("created"));
}

#[test]
fn large_dataset_performance() {
    let mut svc = setup();
    let actions: Vec<BatchAction> = (0..500).map(|i| batch_add(&format!("タスク{i}"))).collect();
    svc.batch(actions).unwrap();
    let start = std::time::Instant::now();
    let resp = list::run(&svc, list_params(list_filter(None, false)), "text").unwrap();
    assert_eq!(resp.data.unwrap().count, 500);
    assert!(start.elapsed().as_secs() < 2);
}

#[test]
fn error_message_task_not_found() {
    let svc = setup();
    let err = show::run(&svc, "0000", "json").unwrap_err();
    assert!(!err.message().is_empty());
}

#[test]
fn error_message_ambiguous_id() {
    let svc = setup();
    let err = show::run(&svc, "ab", "json").unwrap_err();
    assert!(!err.message().is_empty());
}

#[test]
fn add_unicode_emoji_title() {
    let mut svc = setup();
    assert_eq!(add_title(&mut svc, "🎉 パーティー準備").title, "🎉 パーティー準備");
}

#[test]
fn add_long_title() {
    let mut svc = setup();
    let long_title = "a".repeat(1000);
    assert_eq!(add_title(&mut svc, &long_title).title.len(), 1000);
}

#[test]
fn stats_tallies_add_up_to_total() {
    let mut svc = setup();
    for (title, priority, by) in
        [("A", Priority::High, CreatedBy::Human), ("B", Priority::Low, CreatedBy::Ai), ("C", Priority::Unset, CreatedBy::Ai)]
    {
        let mut a = opts(title);
        a.priority = priority;
        a.created_by = by;
        add_task(&mut svc, a);
    }
    let s = stats::run(&svc, &stats_filter(), "json").unwrap().data.unwrap();
    let sum = |t: &Vec<(String, usize)>| t.iter().map(|(_, n)| *n).sum::<usize>();
    assert_eq!(sum(&s.by_status), s.total);
    assert_eq!(sum(&s.by_priority), s.total);
    assert_eq!(sum(&s.by_creator), s.total);
}
