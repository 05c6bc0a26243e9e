use repo_tasks::store::stale_file;
use repo_tasks::{
    checked_title, commit_message_for, filter_tasks, find_by_fragment, listing_order_of,
    matches_fragment, move_outcome, plan_move, slug_from_file_name, split_tags, Config,
    MoveOutcome, MovePlan, Task, TaskError, TaskFileEntry,
};

fn task(id: &str, slug: &str, status: &str, priority: Option<&str>, tags: &[&str]) -> Task {
    Task {
        id: id.to_string(),
        title: slug.to_string(),
        priority: priority.map(|p| p.to_string()),
        blocks: None,
        depends_on: None,
        tags: if tags.is_empty() { None } else { Some(tags.iter().map(|t| t.to_string()).collect()) },
        body: String::new(),
        slug: slug.to_string(),
        status: status.to_string(),
    }
}

fn entry(name: &str, parses: bool) -> TaskFileEntry {
    TaskFileEntry { file_name: name.to_string(), parses }
}

#[test]
fn fragment_matching_no_file_name_is_not_found() {
    let entries = vec![
        entry("20260108000001-test-task.md", true),
        entry("20260108000002-other.md", true),
    ];
    let err = find_by_fragment(&entries, "nonexistent").unwrap_err();
    assert!(matches!(err, TaskError::NotFound { ref fragment } if fragment == "nonexistent"));
    assert!(err.message().starts_with("Task not found: nonexistent\n"));
    assert!(find_by_fragment(&Vec::new(), "x").is_err());
}

#[test]
fn fragment_lookup_takes_first_parsable_task_file() {
    let entries = vec![
        entry("notes.txt", true),
        entry("20260108000001-test-task.md", false),
        entry("20260108000002-test-task-two.md", true),
        entry("20260108000003-test-task-three.md", true),
    ];
    assert_eq!(find_by_fragment(&entries, "test-task").unwrap(), 2);
    assert_eq!(find_by_fragment(&entries, "20260108000003").unwrap(), 3);
    assert!(find_by_fragment(&entries, "notes").is_err());
}

#[test]
fn task_file_names_need_the_md_extension() {
    assert!(matches_fragment("1-a.md", "a"));
    assert!(!matches_fragment(".md", ""));
    assert!(!matches_fragment("1-a.mdx", "a"));
    assert!(!matches_fragment("1-a.md", "b"));
}

#[test]
fn moving_to_the_current_status_touches_nothing() {
    let t = task("20260108000001", "test-task", "done", Some("High"), &[]);
    let plan = plan_move(&t, ".repo-tasks/tasks/done/20260108000001-test-task.md", "done");
    assert!(matches!(plan, MovePlan::AlreadyAtTarget));
    assert!(matches!(move_outcome(&plan, false, false), Ok(MoveOutcome::AlreadyAtTarget)));
}

#[test]
fn moving_writes_the_new_path_then_deletes_the_old() {
    let t = task("20260108000001", "test-task", "todo", Some("High"), &[]);
    let old = ".repo-tasks/tasks/todo/20260108000001-test-task.md";
    let plan = plan_move(&t, old, "done");
    match &plan {
        MovePlan::WriteThenDelete { write_path, delete_path } => {
            assert_eq!(write_path, ".repo-tasks/tasks/done/20260108000001-test-task.md");
            assert_eq!(delete_path, old);
        }
        MovePlan::AlreadyAtTarget => panic!("a move was expected"),
    }
    match move_outcome(&plan, true, true) {
        Ok(MoveOutcome::Moved { path }) => {
            assert_eq!(path, ".repo-tasks/tasks/done/20260108000001-test-task.md")
        }
        other => panic!("unexpected {:?}", other),
    }
    match move_outcome(&plan, true, false) {
        Ok(MoveOutcome::PartiallyMoved { new_path, old_path }) => {
            assert_eq!(new_path, ".repo-tasks/tasks/done/20260108000001-test-task.md");
            assert_eq!(old_path, old);
        }
        other => panic!("unexpected {:?}", other),
    }
    match move_outcome(&plan, false, false) {
        Err(e) => {
            assert!(matches!(e, TaskError::IoFailure { .. }));
            assert_eq!(
                e.message(),
                "Failed to write file: .repo-tasks/tasks/done/20260108000001-test-task.md"
            );
        }
        other => panic!("unexpected {:?}", other),
    }
}

#[test]
fn listing_filters_by_priority_and_tag() {
    let tasks = vec![
        task("1", "a", "todo", Some("High"), &["ui"]),
        task("2", "b", "todo", Some("Low"), &["ui", "api"]),
        task("3", "c", "todo", None, &["api"]),
        task("4", "d", "todo", Some("High"), &[]),
    ];
    let high = filter_tasks(tasks.clone(), Some("High"), None);
    assert_eq!(high.iter().map(|t| t.id.as_str()).collect::<Vec<_>>(), vec!["1", "4"]);
    let api = filter_tasks(tasks.clone(), None, Some("api"));
    assert_eq!(api.iter().map(|t| t.id.as_str()).collect::<Vec<_>>(), vec!["2", "3"]);
    let both = filter_tasks(tasks.clone(), Some("High"), Some("ui"));
    assert_eq!(both.iter().map(|t| t.id.as_str()).collect::<Vec<_>>(), vec!["1"]);
    assert_eq!(filter_tasks(tasks, None, None).len(), 4);
}

#[test]
fn listing_puts_higher_priorities_first_and_keeps_order_within_one() {
    let config = Config::default(None);
    let tasks = vec![
        task("1", "a", "todo", Some("Low"), &[]),
        task("2", "b", "todo", None, &[]),
        task("3", "c", "todo", Some("Critical"), &[]),
        task("4", "d", "todo", Some("Low"), &[]),
        task("5", "e", "todo", Some("Urgent"), &[]),
        task("6", "f", "todo", Some("High"), &[]),
    ];
    assert_eq!(listing_order_of(&tasks, &config.priorities), vec![2, 5, 0, 3, 1, 4]);
}

#[test]
fn status_and_priority_checks_follow_the_configuration() {
    let config = Config::default(None);
    assert!(config.check_status("testing").is_ok());
    let err = config.check_status("archived").unwrap_err();
    assert_eq!(
        err.message(),
        "Invalid status: 'archived'\n\nValid statuses are: todo, in-progress, testing, done"
    );
    assert!(config.check_priority("Critical").is_ok());
    let err = config.check_priority("high").unwrap_err();
    assert_eq!(
        err.message(),
        "Invalid priority: 'high'\n\nValid priorities are: Low, Medium, High, Critical"
    );
}

#[test]
fn tags_are_trimmed_and_empty_ones_dropped() {
    assert_eq!(split_tags(" ui , api,,  ,backend "), vec!["ui", "api", "backend"]);
    assert!(split_tags(" , ").is_empty());
    assert!(split_tags("").is_empty());
    assert_eq!(split_tags("one"), vec!["one"]);
}

#[test]
fn titles_are_trimmed_and_must_not_be_empty() {
    assert_eq!(checked_title("  Write docs \n").unwrap(), "Write docs");
    let err = checked_title(" \t ").unwrap_err();
    assert!(matches!(err, TaskError::EmptyTitle));
    assert_eq!(err.message(), "Task title cannot be empty");
}

#[test]
fn slug_comes_from_the_file_name_after_the_first_hyphen() {
    assert_eq!(slug_from_file_name("20260108000001-test-task.md").as_deref(), Some("test-task"));
    assert_eq!(slug_from_file_name("20260108000001.md"), None);
    assert_eq!(slug_from_file_name("20260108000001-test-task.txt"), None);
    let mut t = task("20260108000001", "old-slug", "todo", None, &[]);
    t.set_location("done".to_string(), "20260108000001-new-slug.md");
    assert_eq!(t.status, "done");
    assert_eq!(t.slug, "new-slug");
}

#[test]
fn a_task_is_assembled_from_its_arguments() {
    let t = Task::from_input("  Ship it ", "High".to_string(), Some(" a, ,b "), Some("notes".to_string()))
        .unwrap();
    assert_eq!(t.title, "Ship it");
    assert_eq!(t.slug, "ship-it");
    assert_eq!(t.priority.as_deref(), Some("High"));
    assert_eq!(t.tags, Some(vec!["a".to_string(), "b".to_string()]));
    assert_eq!(t.body, "notes");
    assert_eq!(t.status, "todo");
    let t = Task::from_input("x", "Low".to_string(), Some(" , "), None).unwrap();
    assert_eq!(t.tags, None);
    assert_eq!(t.body, "");
    assert!(matches!(
        Task::from_input("  ", "Low".to_string(), None, None),
        Err(TaskError::EmptyTitle)
    ));
}

#[test]
fn priority_argument_is_checked_or_defaults_to_medium() {
    let config = Config::default(None);
    assert_eq!(config.priority_from_argument(None).unwrap(), "Medium");
    assert_eq!(config.priority_from_argument(Some("Critical".to_string())).unwrap(), "Critical");
    assert!(matches!(
        config.priority_from_argument(Some("Urgent".to_string())),
        Err(TaskError::InvalidPriority { .. })
    ));
}

#[test]
fn edited_task_leaves_a_stale_file_only_when_its_path_changed() {
    assert_eq!(stale_file("a/1-x.md", "a/1-x.md"), None);
    assert_eq!(stale_file("a/1-x.md", "a/1-y.md").as_deref(), Some("a/1-x.md"));
}

#[test]
fn commit_message_counts_the_changes() {
    assert_eq!(commit_message_for(0, 0, 0), "Update tasks");
    assert_eq!(commit_message_for(1, 0, 0), "Update tasks: 1 added");
    assert_eq!(commit_message_for(0, 12, 3), "Update tasks: 12 modified, 3 deleted");
    assert_eq!(commit_message_for(2, 1, 1), "Update tasks: 2 added, 1 modified, 1 deleted");
}
