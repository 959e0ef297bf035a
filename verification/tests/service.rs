use todos::config::settings::Settings;
use todos::error::AppError;
use todos::model::filter::TaskFilter;
use todos::model::recurrence::Recurrence;
use todos::model::task::{CreatedBy, Priority, Status, Task};
use todos::service::task_service::{BatchAction, TaskService};
use todos::store::json_store::JsonStore;
use todos::store::schema::TaskData;

/// The hyphenated form of an identifier.
fn id_text(id: u128) -> String {
    uuid::Uuid::from_u128(id).to_string()
}

fn service() -> TaskService {
    TaskService::new(
        JsonStore::new("tasks.json".to_string(), TaskData::empty()),
        Settings::default(),
        JsonStore::new("archive.json".to_string(), TaskData::empty()),
    )
}

fn add(svc: &mut TaskService, title: &str, parent: Option<String>) -> Task {
    svc.add_task(
        title.to_string(),
        None,
        Priority::Unset,
        CreatedBy::Human,
        None,
        None,
        parent,
        Recurrence::Never,
    )
    .unwrap()
}

fn prefix(t: &Task) -> String {
    id_text(t.id)[..8].to_string()
}

fn all() -> TaskFilter {
    TaskFilter { include_done: true, include_cancelled: true, ..TaskFilter::default() }
}

fn empty_action() -> BatchAction {
    BatchAction {
        action: None,
        id: None,
        title: None,
        description: None,
        priority: None,
        created_by: None,
        label: None,
        project: None,
        parent_id: None,
        parent: None,
        recurrence: None,
        status: None,
    }
}

#[test]
fn added_task_is_found_by_prefix() {
    let mut svc = service();
    let t = add(&mut svc, "write docs", None);
    let found = svc.get_task(&prefix(&t)).unwrap();
    assert_eq!(found.id, t.id);
    assert_eq!(found.title, "write docs");
    assert_eq!(found.status, Status::Todo);
    assert_eq!(found.created_at, found.updated_at);
    assert!(found.completed_at.is_none());
}

#[test]
fn short_prefix_is_refused() {
    let svc = service();
    match svc.get_task("abc") {
        Err(AppError::IdPrefixTooShort(p)) => assert_eq!(p, "abc"),
        other => panic!("unexpected: {:?}", other),
    }
}

#[test]
fn unknown_prefix_is_not_found() {
    let mut svc = service();
    add(&mut svc, "a task", None);
    let r = svc.get_task("zzzzzzzz");
    assert!(matches!(r, Err(AppError::TaskNotFound(ref p)) if p == "zzzzzzzz"));
    assert_eq!(r.unwrap_err().message(), "Task not found: 'zzzzzzzz'");
}

#[test]
fn unknown_label_is_refused() {
    let mut svc = service();
    let r = svc.add_task(
        "x".to_string(),
        None,
        Priority::High,
        CreatedBy::Ai,
        Some("nope".to_string()),
        None,
        None,
        Recurrence::Never,
    );
    assert!(matches!(r, Err(AppError::InvalidLabel(ref l)) if l == "nope"));
    assert_eq!(svc.list_tasks(&all()).unwrap().len(), 0);
    let ok = svc
        .add_task(
            "y".to_string(),
            None,
            Priority::High,
            CreatedBy::Ai,
            Some("bug".to_string()),
            None,
            None,
            Recurrence::Never,
        )
        .unwrap();
    assert_eq!(ok.label.as_deref(), Some("bug"));
    assert_eq!(ok.created_by, CreatedBy::Ai);
}

#[test]
fn extra_label_is_allowed() {
    let mut settings = Settings::default();
    settings.extra_labels.push("perf".to_string());
    let mut svc = TaskService::new(
        JsonStore::new("t.json".to_string(), TaskData::empty()),
        settings,
        JsonStore::new("a.json".to_string(), TaskData::empty()),
    );
    let r = svc.add_task(
        "speed".to_string(),
        None,
        Priority::Unset,
        CreatedBy::Human,
        Some("perf".to_string()),
        None,
        None,
        Recurrence::Never,
    );
    assert!(r.is_ok());
}

#[test]
fn subtask_takes_parent_project() {
    let mut svc = service();
    let parent = svc
        .add_task(
            "parent".to_string(),
            None,
            Priority::Unset,
            CreatedBy::Human,
            None,
            Some("app".to_string()),
            None,
            Recurrence::Never,
        )
        .unwrap();
    let child = add(&mut svc, "child", Some(prefix(&parent)));
    assert_eq!(child.parent_id, Some(parent.id));
    assert_eq!(child.project.as_deref(), Some("app"));
    let kids = svc.get_subtasks(parent.id).unwrap();
    assert_eq!(kids.len(), 1);
    assert_eq!(kids[0].id, child.id);
}

#[test]
fn nesting_and_recurring_subtasks_are_refused() {
    let mut svc = service();
    let parent = add(&mut svc, "parent", None);
    let child = add(&mut svc, "child", Some(prefix(&parent)));
    let r = svc.add_task(
        "grandchild".to_string(),
        None,
        Priority::Unset,
        CreatedBy::Human,
        None,
        None,
        Some(prefix(&child)),
        Recurrence::Never,
    );
    assert!(matches!(r, Err(AppError::NestingTooDeep)));
    let r = svc.add_task(
        "repeat".to_string(),
        None,
        Priority::Unset,
        CreatedBy::Human,
        None,
        None,
        Some(prefix(&parent)),
        Recurrence::Daily,
    );
    assert!(matches!(r, Err(AppError::SubtaskRecurrence)));
}

#[test]
fn edit_needs_a_field_and_changes_what_is_given() {
    let mut svc = service();
    let parent = add(&mut svc, "parent", None);
    let child = add(&mut svc, "child", Some(prefix(&parent)));
    let r = svc.edit_task(&prefix(&child), None, None, None, None, None, None, None);
    assert!(matches!(r, Err(AppError::NoEditFields)));
    let edited = svc
        .edit_task(
            &prefix(&child),
            Some("renamed".to_string()),
            Some("body".to_string()),
            Some(Priority::Critical),
            None,
            None,
            Some("none".to_string()),
            None,
        )
        .unwrap();
    assert_eq!(edited.title, "renamed");
    assert_eq!(edited.content.as_deref(), Some("body"));
    assert_eq!(edited.priority, Priority::Critical);
    assert_eq!(edited.parent_id, None);
    assert_eq!(svc.get_task(&prefix(&child)).unwrap().title, "renamed");
}

#[test]
fn delete_removes_subtasks_and_keeps_others() {
    let mut svc = service();
    let parent = add(&mut svc, "parent", None);
    let child = add(&mut svc, "child", Some(prefix(&parent)));
    let other = add(&mut svc, "other", None);
    let d = svc.delete_task(&prefix(&parent)).unwrap();
    assert_eq!(d.task.id, parent.id);
    assert_eq!(d.deleted_subtasks, 1);
    assert!(svc.get_task(&prefix(&child)).is_err());
    let left = svc.list_tasks(&all()).unwrap();
    assert_eq!(left.len(), 1);
    assert_eq!(left[0].id, other.id);
}

#[test]
fn done_archives_with_subtasks_and_todo_restores() {
    let mut svc = service();
    let parent = add(&mut svc, "parent", None);
    add(&mut svc, "child", Some(prefix(&parent)));
    let res = svc.change_status(&prefix(&parent), "done").unwrap();
    assert!(res.archived);
    assert_eq!(res.archived_subtasks, 1);
    assert_eq!(res.task.status, Status::Done);
    assert!(res.task.completed_at.is_some());
    assert_eq!(svc.list_tasks(&all()).unwrap().len(), 0);
    assert_eq!(svc.list_archive(&all()).unwrap().len(), 2);
    assert!(svc.get_task_from_archive(&prefix(&parent)).is_ok());

    let back = svc.change_status(&prefix(&parent), "todo").unwrap();
    assert!(back.restored);
    assert_eq!(back.restored_subtasks, 1);
    assert_eq!(back.task.status, Status::Todo);
    assert!(back.task.completed_at.is_none());
    assert_eq!(svc.list_tasks(&all()).unwrap().len(), 2);
    assert_eq!(svc.list_archive(&all()).unwrap().len(), 0);
}

#[test]
fn in_progress_stays_active() {
    let mut svc = service();
    let t = add(&mut svc, "work", None);
    let res = svc.change_status(&prefix(&t), "in_progress").unwrap();
    assert!(!res.archived);
    assert_eq!(res.task.status, Status::InProgress);
    assert_eq!(svc.list_tasks(&all()).unwrap().len(), 1);
}

#[test]
fn unknown_status_is_refused() {
    let mut svc = service();
    let t = add(&mut svc, "work", None);
    let r = svc.change_status(&prefix(&t), "finished");
    match r {
        Err(e) => assert_eq!(e.message(), "Invalid input: Invalid status: 'finished'"),
        Ok(_) => panic!("accepted an unknown status"),
    }
}

#[test]
fn completing_a_recurring_task_creates_the_next() {
    let mut svc = service();
    let t = svc
        .add_task(
            "water plants".to_string(),
            None,
            Priority::Low,
            CreatedBy::Human,
            None,
            None,
            None,
            Recurrence::Daily,
        )
        .unwrap();
    let res = svc.change_status(&prefix(&t), "done").unwrap();
    let g = res.generated_task.expect("next occurrence");
    assert_eq!(g.title, "water plants");
    assert_eq!(g.status, Status::Todo);
    assert_eq!(g.priority, Priority::Low);
    assert_ne!(g.id, t.id);
    let active = svc.list_tasks(&all()).unwrap();
    assert_eq!(active.len(), 1);
    assert_eq!(active[0].id, g.id);
}

#[test]
fn tree_lists_children_after_their_parent() {
    let mut svc = service();
    let a = add(&mut svc, "a", None);
    let b = add(&mut svc, "b", None);
    let a1 = add(&mut svc, "a1", Some(prefix(&a)));
    let tree = svc.list_tasks_tree(&TaskFilter::default()).unwrap();
    let ids: Vec<_> = tree.iter().map(|t| t.id).collect();
    assert_eq!(ids, vec![a.id, a1.id, b.id]);
}

#[test]
fn search_ignores_case() {
    let mut svc = service();
    add(&mut svc, "Fix Login Bug", None);
    add(&mut svc, "write docs", None);
    let found = svc.search_tasks("login", &TaskFilter::default()).unwrap();
    assert_eq!(found.len(), 1);
    assert_eq!(found[0].title, "Fix Login Bug");
}

#[test]
fn stats_count_by_status_and_priority() {
    let mut svc = service();
    let t = add(&mut svc, "one", None);
    add(&mut svc, "two", None);
    svc.change_status(&prefix(&t), "in_progress").unwrap();
    let st = svc.stats(&all()).unwrap();
    assert_eq!(st.total, 2);
    assert_eq!(st.todo, 1);
    assert_eq!(st.in_progress, 1);
    assert_eq!(st.todo + st.in_progress + st.done + st.cancelled, st.total);
    assert_eq!(st.by_priority.len(), 1);
    assert_eq!(st.by_priority[0].0, "none");
    assert_eq!(st.by_priority[0].1, 2);
}

#[test]
fn batch_reports_each_action() {
    let mut svc = service();
    let mut add_action = empty_action();
    add_action.action = Some("add".to_string());
    add_action.title = Some("from batch".to_string());
    add_action.priority = Some("high".to_string());
    let mut bad = empty_action();
    bad.action = Some("explode".to_string());
    let result = svc.batch(vec![add_action, bad]).unwrap();
    assert_eq!(result.summary.total, 2);
    assert_eq!(result.summary.succeeded, 1);
    assert_eq!(result.summary.failed, 1);
    assert!(result.results[0].success);
    assert_eq!(result.results[0].task.as_ref().unwrap().priority, Priority::High);
    assert_eq!(
        result.results[1].error.as_deref(),
        Some("Invalid input: Unknown batch action: 'explode'")
    );
}

#[test]
fn mark_saved_leaves_nothing_to_write() {
    let mut svc = service();
    let t = add(&mut svc, "one", None);
    svc.change_status(&prefix(&t), "done").unwrap();
    assert!(svc.store().needs_save());
    assert!(svc.archive_store().needs_save());
    svc.mark_saved();
    assert!(!svc.store().needs_save());
    assert!(!svc.archive_store().needs_save());
    assert_eq!(svc.get_task_from_archive(&prefix(&t)).unwrap().title, "one");
}

#[test]
fn prefix_length_counts_characters() {
    let svc = service();
    match svc.get_task("あい") {
        Err(AppError::IdPrefixTooShort(p)) => assert_eq!(p, "あい"),
        _ => panic!("a two-character prefix was looked up"),
    }
    match svc.get_task("あいうえ") {
        Err(AppError::TaskNotFound(p)) => assert_eq!(p, "あいうえ"),
        _ => panic!("a four-character prefix was refused"),
    }
}

fn set_parent(svc: &mut TaskService, t: &Task, parent: &str) -> Result<Task, AppError> {
    svc.edit_task(&prefix(t), None, None, None, None, None, Some(parent.to_string()), None)
}

#[test]
fn edits_keep_two_levels() {
    let mut svc = service();
    let a = add(&mut svc, "a", None);
    let b = add(&mut svc, "b", None);
    let child = add(&mut svc, "child", Some(prefix(&a)));
    // A task cannot become its own parent.
    assert!(matches!(set_parent(&mut svc, &b, &prefix(&b)), Err(AppError::NestingTooDeep)));
    // A task with subtasks cannot be given a parent.
    assert!(matches!(set_parent(&mut svc, &a, &prefix(&b)), Err(AppError::NestingTooDeep)));
    // A subtask cannot be a parent.
    assert!(matches!(set_parent(&mut svc, &b, &prefix(&child)), Err(AppError::NestingTooDeep)));
    // A root without subtasks can move under another root.
    assert_eq!(set_parent(&mut svc, &b, &prefix(&a)).unwrap().parent_id, Some(a.id));
    assert!(set_parent(&mut svc, &b, "none").unwrap().parent_id.is_none());
}

#[test]
fn changes_are_marked_for_writing() {
    let mut svc = service();
    assert!(!svc.store().needs_save() && !svc.archive_store().needs_save());
    let r = svc.batch(Vec::new()).unwrap();
    assert_eq!(r.summary.total, 0);
    assert!(!svc.store().needs_save() && !svc.archive_store().needs_save());
    let t = add(&mut svc, "one", None);
    assert!(svc.store().needs_save());
    assert!(!svc.archive_store().needs_save());
    svc.mark_saved();
    svc.change_status(&prefix(&t), "done").unwrap();
    assert!(svc.store().needs_save() && svc.archive_store().needs_save());
}

#[test]
fn batch_archives_finished_tasks_at_the_end() {
    let mut svc = service();
    let t = add(&mut svc, "task", None);
    add(&mut svc, "child", Some(prefix(&t)));
    let mut done = empty_action();
    done.action = Some("status".to_string());
    done.id = Some(prefix(&t));
    done.status = Some("done".to_string());
    let mut edit = empty_action();
    edit.action = Some("edit".to_string());
    edit.id = Some(prefix(&t));
    edit.title = Some("renamed".to_string());
    let r = svc.batch(vec![done, edit]).unwrap();
    assert_eq!(r.summary.succeeded, 2);
    assert_eq!(svc.list_tasks(&all()).unwrap().len(), 0);
    let archived = svc.list_archive(&all()).unwrap();
    assert_eq!(archived.len(), 2);
    assert_eq!(archived[0].title, "renamed");
    assert_eq!(archived[0].status, Status::Done);
}
