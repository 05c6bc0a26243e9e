use repo_tasks::parse_commit_message;

#[test]
fn test_parse_empty_message() {
    let info = parse_commit_message("");
    assert_eq!(info.task_ids.len(), 0);
    assert_eq!(info.status_keywords.len(), 0);
    assert!(!info.has_task_ids());
    assert!(!info.has_status_keywords());
}

#[test]
fn test_extract_task_id_bracket_format() {
    let info = parse_commit_message("[20260110142106] Add new feature");
    assert_eq!(info.task_ids, vec!["20260110142106"]);
    assert_eq!(info.first_task_id(), Some("20260110142106"));
}

#[test]
fn test_extract_task_id_hash_format() {
    let info = parse_commit_message("Fix bug #20260110142106");
    assert_eq!(info.task_ids, vec!["20260110142106"]);
}

#[test]
fn test_extract_task_id_task_prefix_format() {
    let info = parse_commit_message("Update task/20260110142106 implementation");
    assert_eq!(info.task_ids, vec!["20260110142106"]);
}

#[test]
fn test_extract_task_id_closes_format() {
    let info = parse_commit_message("Implement feature closes #20260110142106");
    assert_eq!(info.task_ids, vec!["20260110142106"]);
}

#[test]
fn test_extract_task_id_fixes_format() {
    let info = parse_commit_message("Fix critical bug fixes #20260110142106");
    assert_eq!(info.task_ids, vec!["20260110142106"]);
}

#[test]
fn test_extract_multiple_task_ids() {
    let info = parse_commit_message("[20260110142106] Related to #20260109120000");
    assert_eq!(info.task_ids.len(), 2);
    assert!(info.task_ids.contains(&"20260110142106".to_string()));
    assert!(info.task_ids.contains(&"20260109120000".to_string()));
}

#[test]
fn test_deduplicate_task_ids() {
    let info = parse_commit_message("[20260110142106] Fix #20260110142106");
    assert_eq!(info.task_ids, vec!["20260110142106"]);
}

#[test]
fn test_extract_done_keyword() {
    let info = parse_commit_message("[20260110142106] Complete feature [done]");
    assert_eq!(info.status_keywords.len(), 1);
    assert_eq!(info.status_keywords[0].target_status, "done");
    assert_eq!(info.status_keywords[0].keyword, "done");
}

#[test]
fn test_extract_complete_keyword() {
    let info = parse_commit_message("Feature implementation [complete]");
    assert_eq!(info.status_keywords.len(), 1);
    assert_eq!(info.status_keywords[0].target_status, "done");
    assert_eq!(info.status_keywords[0].keyword, "complete");
}

#[test]
fn test_extract_finished_keyword() {
    let info = parse_commit_message("All tests passing [finished]");
    assert_eq!(info.status_keywords.len(), 1);
    assert_eq!(info.status_keywords[0].target_status, "done");
}

#[test]
fn test_extract_closes_keyword() {
    let info = parse_commit_message("Implement auth closes #20260110142106");
    assert_eq!(info.status_keywords.len(), 1);
    assert_eq!(info.status_keywords[0].target_status, "done");
    assert_eq!(info.status_keywords[0].keyword, "closes");
}

#[test]
fn test_extract_testing_keyword() {
    let info = parse_commit_message("Ready for QA [testing]");
    assert_eq!(info.status_keywords.len(), 1);
    assert_eq!(info.status_keywords[0].target_status, "testing");
    assert_eq!(info.status_keywords[0].keyword, "testing");
}

#[test]
fn test_extract_review_keyword() {
    let info = parse_commit_message("Ready for code review [review]");
    assert_eq!(info.status_keywords.len(), 1);
    assert_eq!(info.status_keywords[0].target_status, "testing");
}

#[test]
fn test_extract_wip_keyword() {
    let info = parse_commit_message("Work in progress [wip]");
    assert_eq!(info.status_keywords.len(), 1);
    assert_eq!(info.status_keywords[0].target_status, "in-progress");
    assert_eq!(info.status_keywords[0].keyword, "wip");
}

#[test]
fn test_extract_in_progress_keyword() {
    let info = parse_commit_message("Starting implementation [in-progress]");
    assert_eq!(info.status_keywords.len(), 1);
    assert_eq!(info.status_keywords[0].target_status, "in-progress");
}

#[test]
fn test_combined_task_id_and_status() {
    let info = parse_commit_message("[20260110142106] Implement auth [done]");
    assert_eq!(info.task_ids, vec!["20260110142106"]);
    assert_eq!(info.status_keywords.len(), 1);
    assert_eq!(info.status_keywords[0].target_status, "done");
    assert!(info.has_task_ids());
    assert!(info.has_status_keywords());
}

#[test]
fn test_case_insensitive_keywords() {
    let info = parse_commit_message("Feature complete [DONE]");
    assert_eq!(info.status_keywords.len(), 1);
    assert_eq!(info.status_keywords[0].target_status, "done");
}

#[test]
fn test_no_false_positives_for_partial_matches() {
    let info = parse_commit_message("Update documentation for task 123");
    assert_eq!(info.task_ids.len(), 0); // "123" is not a valid 14-digit task ID
}

#[test]
fn test_multiline_commit_message() {
    let message = r#"[20260110142106] Implement user authentication

This commit adds JWT-based authentication to the API.
Includes login, logout, and token refresh.

[done]"#;
    let info = parse_commit_message(message);
    assert_eq!(info.task_ids, vec!["20260110142106"]);
    assert_eq!(info.status_keywords.len(), 1);
    assert_eq!(info.status_keywords[0].target_status, "done");
}

#[test]
fn test_real_world_commit_examples() {
    // Example 1: Feature with task ID and done marker
    let info = parse_commit_message("[20260110142106] Add user profile page [done]");
    assert_eq!(info.task_ids, vec!["20260110142106"]);
    assert_eq!(info.status_keywords[0].target_status, "done");

    // Example 2: Bug fix with closes
    let info = parse_commit_message("Fix login bug closes #20260109120000");
    assert_eq!(info.task_ids, vec!["20260109120000"]);
    assert_eq!(info.status_keywords[0].target_status, "done");

    // Example 3: WIP commit
    let info = parse_commit_message("#20260110142106 Work on API endpoints [wip]");
    assert_eq!(info.task_ids, vec!["20260110142106"]);
    assert_eq!(info.status_keywords[0].target_status, "in-progress");

    // Example 4: Ready for review
    let info = parse_commit_message("task/20260110142106 Refactor auth module [review]");
    assert_eq!(info.task_ids, vec!["20260110142106"]);
    assert_eq!(info.status_keywords[0].target_status, "testing");
}
