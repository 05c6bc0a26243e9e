//! A task tracker kept inside a repository: one text file per task, one directory per
//! status, and automatic status changes driven by commit messages.
pub mod bridge;
pub mod clock;
pub mod commit;
pub mod config;
pub mod display;
pub mod errors;
pub mod frontmatter;
pub mod hooks;
pub mod store;
pub mod task;
pub mod text;
pub mod vcs;

pub use bridge::{plan_transitions, transition_target, Transition};
pub use clock::{format_id, generate_id, LocalTime};
pub use commit::{parse_commit_message, CommitInfo, StatusKeyword};
pub use config::Config;
pub use errors::{
    ensure_initialized, file_context, invalid_priority, invalid_status, task_not_found, TaskError,
};
pub use hooks::{get_hook_template, parse_hook_name, HookType};
pub use store::{
    filter_tasks, find_by_fragment, listing_order_of, matches_fragment, move_outcome, plan_move,
    MoveOutcome, MovePlan, TaskFileEntry,
};
pub use task::{checked_title, generate_slug, slug_from_file_name, split_tags, Task};
pub use vcs::commit_message_for;
