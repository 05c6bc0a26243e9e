use serde_yaml::{Mapping, Value};
use repo_tasks::display::{priority_for_table, table_header, table_row};
use repo_tasks::{
    ensure_initialized, file_context, invalid_priority, invalid_status, parse_commit_message,
    plan_transitions, task_not_found, transition_target, Task, TaskError,
};

#[test]
fn framed_task_file_splits_back_into_header_and_body() {
    let header = "ID: '20260108120000'\nTitle: Test Task\nTags:\n- a\n- b\n";
    let body = "Line one\n\n--- not a delimiter line start\nlast line";
    let text = Task::frame(header, body);
    assert_eq!(
        text,
        format!("---\n{}---\n\n{}", header, body)
    );
    let (h, b) = Task::split_frontmatter(&text).unwrap();
    assert_eq!(h, header);
    assert_eq!(b, body);
}

#[test]
fn body_keeps_its_indentation_and_loses_only_blank_lines() {
    let (h, b) = Task::split_frontmatter("---\nID: '1'\n---\n\n  \n  indented\nlast  \n \n\n").unwrap();
    assert_eq!(h, "ID: '1'\n");
    assert_eq!(b, "  indented\nlast  ");
    let (_, b) = Task::split_frontmatter("---\nID: '1'\n---\n \t\n\n").unwrap();
    assert_eq!(b, "");
    let (_, b) = Task::split_frontmatter("---\nID: '1'\n---").unwrap();
    assert_eq!(b, "");
}

#[test]
fn only_whole_delimiter_lines_delimit() {
    let text = "---\nTitle: a---b\nNote: ----\n---\nbody --- text\n---\nmore";
    let (h, b) = Task::split_frontmatter(text).unwrap();
    assert_eq!(h, "Title: a---b\nNote: ----\n");
    assert_eq!(b, "body --- text\n---\nmore");
    let title_with_dashes = Task::frame("Title: a---b\n", "x");
    let (h, b) = Task::split_frontmatter(&title_with_dashes).unwrap();
    assert_eq!(h, "Title: a---b\n");
    assert_eq!(b, "x");
}

#[test]
fn text_without_two_delimiters_is_malformed() {
    assert!(matches!(Task::split_frontmatter("no header"), Err(TaskError::MalformedTask { .. })));
    assert!(matches!(Task::split_frontmatter("---\nID: 1\n"), Err(TaskError::MalformedTask { .. })));
    assert!(Task::split_frontmatter("------").is_err());
    assert!(Task::split_frontmatter("a---b---c").is_err());
    let (h, b) = Task::split_frontmatter("---\n---\n").unwrap();
    assert_eq!(h, "");
    assert_eq!(b, "");
}

#[test]
fn commit_with_bracket_id_and_no_keyword() {
    let info = parse_commit_message("[20260110142106] Add new feature");
    assert_eq!(info.task_ids, vec!["20260110142106"]);
    assert!(info.status_keywords.is_empty());
}

#[test]
fn keywords_come_in_category_order_one_per_category() {
    let info = parse_commit_message("[wip] then [review] [ready] and finally [Done] [finished]");
    let found: Vec<(&str, &str)> = info
        .status_keywords
        .iter()
        .map(|k| (k.keyword.as_str(), k.target_status.as_str()))
        .collect();
    assert_eq!(found, vec![("done", "done"), ("review", "testing"), ("wip", "in-progress")]);
}

#[test]
fn closing_words_need_a_hash_and_fourteen_digits() {
    let info = parse_commit_message("Fixes   #20260110142106");
    assert_eq!(info.status_keywords[0].keyword, "fixes");
    assert!(parse_commit_message("encloses #20260110142106").status_keywords.is_empty());
    assert!(parse_commit_message("closes 20260110142106").status_keywords.is_empty());
    assert!(parse_commit_message("closes #2026011014210").status_keywords.is_empty());
    assert_eq!(parse_commit_message("[completed]").status_keywords[0].keyword, "complete");
}

#[test]
fn identifiers_are_runs_of_exactly_fourteen_digits() {
    let info = parse_commit_message("Refs 20260110142106 in text");
    assert_eq!(info.task_ids, vec!["20260110142106"]);
    let info = parse_commit_message(
        "20260110142106 task/2026011014210 #12345678901234 [98765432109876]",
    );
    assert_eq!(info.task_ids, vec!["20260110142106", "12345678901234", "98765432109876"]);
    let info = parse_commit_message("#123456789012345 and #12345678901234");
    assert_eq!(info.task_ids, vec!["12345678901234"]);
    assert!(parse_commit_message("closes #202601101421066").status_keywords.is_empty());
}

#[test]
fn done_wins_over_testing_and_in_progress() {
    let info = parse_commit_message("[20260110142106] #20260109120000 [wip] [testing] [done]");
    assert_eq!(transition_target(&info.status_keywords).as_deref(), Some("done"));
    let plan = plan_transitions(&info);
    assert_eq!(plan.len(), 2);
    assert_eq!(plan[0].task_id, "20260110142106");
    assert_eq!(plan[1].task_id, "20260109120000");
    assert!(plan.iter().all(|t| t.target_status == "done"));

    let info = parse_commit_message("[20260110142106] [started] [ready]");
    assert_eq!(transition_target(&info.status_keywords).as_deref(), Some("testing"));
    let info = parse_commit_message("[20260110142106] nothing to say");
    assert_eq!(transition_target(&info.status_keywords), None);
    assert!(plan_transitions(&info).is_empty());
}

#[test]
fn error_helpers_build_their_messages() {
    assert!(ensure_initialized(true).is_ok());
    let err = ensure_initialized(false).unwrap_err();
    assert!(matches!(err, TaskError::NotInitialized));
    assert!(err.message().starts_with("Not in a repo-tasks repository."));
    let err = task_not_found("abc");
    assert_eq!(
        err.message(),
        "Task not found: abc\n\nTry:\n\x1b[1m  tasks list\x1b[0m           # List all tasks\n\x1b[1m  tasks search abc\x1b[0m  # Search for tasks"
    );
    assert_eq!(file_context(".repo-tasks/x.md", "read"), "Failed to read file: .repo-tasks/x.md");
    let valid = vec!["todo".to_string(), "done".to_string()];
    assert_eq!(
        invalid_status("x", &valid).message(),
        "Invalid status: 'x'\n\nValid statuses are: todo, done"
    );
    assert_eq!(
        invalid_priority("y", &valid[..1]).message(),
        "Invalid priority: 'y'\n\nValid priorities are: todo"
    );
}

#[test]
fn table_rows_show_priority_symbol_and_tags() {
    assert_eq!(priority_for_table("Critical"), "\u{1f534} Critical");
    assert_eq!(priority_for_table("Other"), "\u{26aa} Other");
    assert_eq!(table_header(), vec!["Priority", "ID", "Title", "Tags"]);
    let mut t = Task::new("Write docs".to_string(), "Low".to_string());
    t.priority = None;
    t.tags = Some(vec!["a".to_string(), "b".to_string()]);
    let row = table_row(&t);
    assert_eq!(row[0], "\u{1f7e1} Medium");
    assert_eq!(row[1], t.id);
    assert_eq!(row[2], "Write docs");
    assert_eq!(row[3], "a, b");
}

#[test]
fn task_file_round_trip_keeps_every_header_field_and_the_body() {
    let text = |s: &str| Value::String(s.to_string());
    let mut header = Mapping::new();
    header.insert(text("ID"), text("20260108120000"));
    header.insert(text("Title"), text("Round: trip \"quoted\" #1"));
    header.insert(text("Priority"), text("High"));
    header.insert(text("Blocks"), Value::Sequence(vec![text("20260108120001")]));
    header.insert(text("DependsOn"), Value::Sequence(vec![]));
    header.insert(text("Tags"), Value::Sequence(vec![text("a b"), text("c")]));
    let header = Value::Mapping(header);
    let body = "First line\n\n  indented second\nlast";

    let yaml = serde_yaml::to_string(&header).unwrap();
    let file = Task::frame(&yaml, body);
    let (h, b) = Task::split_frontmatter(&file).unwrap();
    let parsed: Value = serde_yaml::from_str(&h).unwrap();
    assert_eq!(parsed, header);
    assert_eq!(b, body);
}
