use repo_tasks::clock::LocalTime;
use repo_tasks::{format_id, Config, Task};

#[test]
fn test_default_config() {
    let config = Config::default(Some("test-project".to_string()));

    assert_eq!(config.project_name, "test-project");
    assert_eq!(config.statuses.len(), 4);
    assert_eq!(config.priorities.len(), 4);
    assert!(!config.auto_commit);
}

#[test]
fn test_default_config_no_name() {
    let config = Config::default(None);

    // Should use current directory name or fallback
    assert!(!config.project_name.is_empty());
}

#[test]
fn default_config_lists_statuses_and_priorities_in_order() {
    let config = Config::default(None);
    assert_eq!(config.project_name, "my-project");
    assert_eq!(config.statuses, vec!["todo", "in-progress", "testing", "done"]);
    assert_eq!(config.priorities, vec!["Low", "Medium", "High", "Critical"]);
    assert_eq!(Config::config_path(), ".repo-tasks/config.json");
}

#[test]
fn test_generate_slug() {
    assert_eq!(
        Task::generate_slug("Create Requirements Document"),
        "create-requirements-document"
    );
    assert_eq!(
        Task::generate_slug("Add new feature: User Authentication"),
        "add-new-feature-user-authentication"
    );
}

#[test]
fn test_generate_id() {
    let id = Task::generate_id();

    // IDs should be numeric strings
    assert!(id.chars().all(|c| c.is_numeric()));
    assert_eq!(id.len(), 14); // YYYYMMDDHHmmSS format
}

#[test]
fn test_new_task() {
    let task = Task::new("Test Task".to_string(), "High".to_string());

    assert_eq!(task.title, "Test Task");
    assert_eq!(task.priority, Some("High".to_string()));
    assert_eq!(task.slug, "test-task");
    assert_eq!(task.status, "todo");
    assert_eq!(task.body, "");
}

#[test]
fn test_parse_frontmatter() {
    let content = r#"---
ID: "20260108120000"
Title: Test Task
Priority: High
---

This is the task body."#;

    let (header, body) = Task::split_frontmatter(content).unwrap();
    let task: serde_yaml::Value = serde_yaml::from_str(&header).unwrap();

    assert_eq!(task["ID"].as_str(), Some("20260108120000"));
    assert_eq!(task["Title"].as_str(), Some("Test Task"));
    assert_eq!(task["Priority"].as_str(), Some("High"));
    assert_eq!(body, "This is the task body.");
}

fn time(year: i32, month: u32, day: u32, hour: u32, minute: u32, second: u32) -> LocalTime {
    LocalTime { year, month, day, hour, minute, second, nanosecond: 0 }
}

#[test]
fn identifier_is_zero_padded_local_time() {
    assert_eq!(format_id(&time(2026, 1, 10, 14, 21, 6)), "20260110142106");
    assert_eq!(format_id(&time(987, 3, 4, 5, 6, 7)), "09870304050607");
}

#[test]
fn identifier_shows_a_leap_second_as_sixty() {
    let mut t = time(2026, 6, 30, 23, 59, 59);
    t.nanosecond = 1_000_000_000;
    assert_eq!(format_id(&t), "20260630235960");
}

#[test]
fn identifier_of_a_year_past_9999_carries_a_sign() {
    assert_eq!(format_id(&time(12345, 1, 2, 3, 4, 5)), "+123450102030405");
    assert_eq!(format_id(&time(-5, 1, 2, 3, 4, 5)), "-00050102030405");
}

#[test]
fn slug_collapses_runs_and_strips_ends() {
    assert_eq!(Task::generate_slug("  --Hello,   World!! "), "hello-world");
    assert_eq!(Task::generate_slug("already-a-slug"), "already-a-slug");
    assert_eq!(Task::generate_slug(""), "");
}

#[test]
fn new_task_file_name_and_path() {
    let mut task = Task::new("Fix the Login Bug".to_string(), "Low".to_string());
    task.id = "20260108000001".to_string();
    assert_eq!(task.file_name(), "20260108000001-fix-the-login-bug.md");
    assert_eq!(
        task.file_path("done"),
        ".repo-tasks/tasks/done/20260108000001-fix-the-login-bug.md"
    );
    assert_eq!(task.branch_name(), "20260108000001-fix-the-login-bug");
}
