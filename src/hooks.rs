//! The git hooks that this tool installs, and the scripts they run.
use crate::errors::TaskError;
use crate::text::{chars_of, occurs, occurs_in, same_text};
use vstd::prelude::*;

verus! {

/// The git hooks this tool manages.
#[derive(Debug, Clone, Copy, PartialEq, Eq, Structural)]
pub enum HookType {
    PreCommit,
    PostCommit,
    PrepareCommitMsg,
    PostCheckout,
}

/// The lines every managed hook script starts with; they mark it as this tool's.
pub const HOOK_HEADER: &'static str = "#!/bin/sh\n# Generated by repo-tasks\n# This hook is managed by repo-tasks. To uninstall: tasks hooks uninstall\n";

pub const PRE_COMMIT_SCRIPT: &'static str = "\n# Pre-commit hook: Validate task references and prevent .repo-tasks commits\n\n# Check for staged .repo-tasks files\nSTAGED_TASKS=$(git diff --cached --name-only | grep \"^\\.repo-tasks/\")\n\nif [ -n \"$STAGED_TASKS\" ]; then\n  echo \"Error: Cannot commit task files with regular git commit\"\n  echo \"\"\n  echo \"The following task files are staged:\"\n  echo \"$STAGED_TASKS\" | sed 's/^/  - /'\n  echo \"\"\n  echo \"Task files should only be committed with 'tasks save'\"\n  echo \"\"\n  echo \"To fix:\"\n  echo \"  1. Unstage task files: git restore --staged .repo-tasks/\"\n  echo \"  2. Commit project files: git commit -m \\\"Your message\\\"\"\n  echo \"  3. Then save task files: tasks save\"\n  echo \"\"\n  echo \"Or use --no-verify to bypass this check (not recommended)\"\n  exit 1\nfi\n\nexit 0\n";

pub const POST_COMMIT_SCRIPT: &'static str = "\n# Post-commit hook: Auto-update task status based on commit message\n\n# Get the commit message\nCOMMIT_MSG=$(git log -1 --pretty=%B)\n\n# Log file\nLOG_FILE=\".repo-tasks/hooks.log\"\nmkdir -p \"$(dirname \"$LOG_FILE\")\"\n\n# Log timestamp\necho \"$(date '+%Y-%m-%d %H:%M:%S') - post-commit hook triggered\" >> \"$LOG_FILE\"\n\n# Find repo-tasks binary\nREPO_TASKS_BIN=\"repo-tasks\"\nif ! command -v \"$REPO_TASKS_BIN\" > /dev/null 2>&1; then\n    # Try to find it in common locations\n    if [ -f \"./target/release/repo-tasks\" ]; then\n        REPO_TASKS_BIN=\"./target/release/repo-tasks\"\n    elif [ -f \"./target/debug/repo-tasks\" ]; then\n        REPO_TASKS_BIN=\"./target/debug/repo-tasks\"\n    else\n        echo \"$(date '+%Y-%m-%d %H:%M:%S') - WARNING: repo-tasks binary not found\" >> \"$LOG_FILE\"\n        exit 0\n    fi\nfi\n\n# Let repo-tasks read the task references and status keywords of the message and move\n# each referenced task; a task that cannot be moved is reported and the others still are\nif OUTPUT=$(\"$REPO_TASKS_BIN\" hooks apply \"$COMMIT_MSG\" 2>&1); then\n    if [ -n \"$OUTPUT\" ]; then\n        echo \"$OUTPUT\" >> \"$LOG_FILE\"\n        echo \"$OUTPUT\"\n    fi\nelse\n    # Log error but don't fail the commit\n    echo \"$(date '+%Y-%m-%d %H:%M:%S') - ERROR: $OUTPUT\" >> \"$LOG_FILE\"\nfi\n\nexit 0\n";

pub const PREPARE_COMMIT_MSG_SCRIPT: &'static str = "\n# Prepare-commit-msg hook: Add task context to commit template\n\nCOMMIT_MSG_FILE=$1\nCOMMIT_SOURCE=$2\n\necho \"repo-tasks: prepare-commit-msg hook (placeholder)\"\n# Commit template logic: not provided yet\nexit 0\n";

pub const POST_CHECKOUT_SCRIPT: &'static str = "\n# Post-checkout hook: Show task info when switching branches\n\nPREV_HEAD=$1\nNEW_HEAD=$2\nBRANCH_SWITCH=$3\n\necho \"repo-tasks: post-checkout hook (placeholder)\"\n# Branch info logic: not provided yet\nexit 0\n";

pub open spec fn file_name_of(h: HookType) -> Seq<char> {
    match h {
        HookType::PreCommit => "pre-commit"@,
        HookType::PostCommit => "post-commit"@,
        HookType::PrepareCommitMsg => "prepare-commit-msg"@,
        HookType::PostCheckout => "post-checkout"@,
    }
}

/// The script of hook `h`: the common header, then its own part.
pub open spec fn template_text(h: HookType) -> Seq<char> {
    HOOK_HEADER@ + match h {
        HookType::PreCommit => PRE_COMMIT_SCRIPT@,
        HookType::PostCommit => POST_COMMIT_SCRIPT@,
        HookType::PrepareCommitMsg => PREPARE_COMMIT_MSG_SCRIPT@,
        HookType::PostCheckout => POST_CHECKOUT_SCRIPT@,
    }
}

impl HookType {
    /// The name of the hook's file in the hooks directory.
    pub fn filename(&self) -> (r: &'static str)
        ensures
            r@ == file_name_of(*self),
    {
        match self {
            HookType::PreCommit => "pre-commit",
            HookType::PostCommit => "post-commit",
            HookType::PrepareCommitMsg => "prepare-commit-msg",
            HookType::PostCheckout => "post-checkout",
        }
    }

    /// Every managed hook, in installation order.
    pub fn all() -> (r: Vec<HookType>)
        ensures
            r@ == seq![
                HookType::PreCommit,
                HookType::PostCommit,
                HookType::PrepareCommitMsg,
                HookType::PostCheckout,
            ],
    {
        let r = vec![
            HookType::PreCommit,
            HookType::PostCommit,
            HookType::PrepareCommitMsg,
            HookType::PostCheckout,
        ];
        assert(r@ =~= seq![
            HookType::PreCommit,
            HookType::PostCommit,
            HookType::PrepareCommitMsg,
            HookType::PostCheckout,
        ]);
        r
    }
}

/// The hook named `name`; `UnknownHook` for any other name.
pub fn parse_hook_name(name: &str) -> (r: Result<HookType, TaskError>)
    ensures
        match r {
            Ok(h) => file_name_of(h) == name@,
            Err(e) => (e matches TaskError::UnknownHook { name: n } && n@ == name@) && forall|
                h: HookType,
            | file_name_of(h) != name@,
        },
{
    if same_text(name, "pre-commit") {
        Ok(HookType::PreCommit)
    } else if same_text(name, "post-commit") {
        Ok(HookType::PostCommit)
    } else if same_text(name, "prepare-commit-msg") {
        Ok(HookType::PrepareCommitMsg)
    } else if same_text(name, "post-checkout") {
        Ok(HookType::PostCheckout)
    } else {
        proof {
            assert forall|h: HookType| file_name_of(h) != name@ by {
                match h {
                    HookType::PreCommit => {},
                    HookType::PostCommit => {},
                    HookType::PrepareCommitMsg => {},
                    HookType::PostCheckout => {},
                }
            }
        }
        Err(TaskError::UnknownHook { name: name.to_owned() })
    }
}

/// The script that hook `hook_type` runs.
pub fn get_hook_template(hook_type: &HookType) -> (r: String)
    ensures
        r@ == template_text(*hook_type),
{
    let mut s = HOOK_HEADER.to_owned();
    let own = match hook_type {
        HookType::PreCommit => PRE_COMMIT_SCRIPT,
        HookType::PostCommit => POST_COMMIT_SCRIPT,
        HookType::PrepareCommitMsg => PREPARE_COMMIT_MSG_SCRIPT,
        HookType::PostCheckout => POST_CHECKOUT_SCRIPT,
    };
    s.append(own);
    s
}


/// Whether a hook script is one this tool manages: it mentions `repo-tasks`.
pub fn is_managed_script(content: &str) -> (r: bool)
    ensures
        r == occurs_in(content@, "repo-tasks"@),
{
    let t = chars_of(content);
    let m = chars_of("repo-tasks");
    occurs(&t, &m)
}

} // verus!
