use repo_tasks::hooks::is_managed_script;
use repo_tasks::{get_hook_template, parse_hook_name, HookType, TaskError};

#[test]
fn test_hook_type_filename() {
    assert_eq!(HookType::PreCommit.filename(), "pre-commit");
    assert_eq!(HookType::PostCommit.filename(), "post-commit");
    assert_eq!(HookType::PrepareCommitMsg.filename(), "prepare-commit-msg");
    assert_eq!(HookType::PostCheckout.filename(), "post-checkout");
}

#[test]
fn test_parse_hook_name() {
    assert!(matches!(parse_hook_name("pre-commit").unwrap(), HookType::PreCommit));
    assert!(matches!(parse_hook_name("post-commit").unwrap(), HookType::PostCommit));
    assert!(parse_hook_name("invalid").is_err());
}

#[test]
fn test_all_hooks() {
    let hooks = HookType::all();
    assert_eq!(hooks.len(), 4);
}

#[test]
fn unknown_hook_name_is_reported_with_the_valid_names() {
    let err = parse_hook_name("pre-push").unwrap_err();
    assert!(matches!(err, TaskError::UnknownHook { ref name } if name == "pre-push"));
    assert_eq!(
        err.message(),
        "Unknown hook type: pre-push. Valid types: pre-commit, post-commit, prepare-commit-msg, post-checkout"
    );
}

#[test]
fn managed_scripts_mention_the_tool() {
    assert!(is_managed_script(&get_hook_template(&HookType::PostCheckout)));
    assert!(!is_managed_script("#!/bin/sh\nexit 0\n"));
}

#[test]
fn hook_names_round_trip() {
    for h in HookType::all() {
        assert_eq!(parse_hook_name(h.filename()).unwrap(), h);
    }
}

#[test]
fn hook_templates_are_marked_as_managed() {
    for h in HookType::all() {
        let script = get_hook_template(&h);
        assert!(script.starts_with("#!/bin/sh\n# Generated by repo-tasks\n"));
        assert!(script.contains("repo-tasks"));
    }
    let post = get_hook_template(&HookType::PostCommit);
    assert!(post.contains("hooks apply \"$COMMIT_MSG\""));
    assert!(!get_hook_template(&HookType::PreCommit).contains("hooks apply"));
}
