//! The errors of this library and the messages they carry.
use crate::text::{copy_texts, join, joined, views_of};
use vstd::prelude::*;

verus! {

/// Why an operation on the task store failed.
#[derive(Debug, Clone)]
pub enum TaskError {
    /// The working directory holds no task store.
    NotInitialized,
    /// A task file lacks its header delimiters, or its header is not a task.
    MalformedTask { detail: String },
    /// No task file name contains the fragment.
    NotFound { fragment: String },
    /// A status outside the configured list.
    InvalidStatus { status: String, valid: Vec<String> },
    /// A priority outside the configured list.
    InvalidPriority { priority: String, valid: Vec<String> },
    /// A read, write or delete failed on `path`.
    IoFailure { path: String, operation: String },
    /// A hook name that is not one of the managed hooks.
    UnknownHook { name: String },
    /// A task title that is empty once trimmed.
    EmptyTitle,
}

/// The text of a `NotInitialized` error.
pub open spec fn not_initialized_text() -> Seq<char> {
    "Not in a repo-tasks repository.\n\nTo get started, run:\n\n\x1b[1m  tasks init\x1b[0m\n\nThis will create a .repo-tasks/ directory in your current location."@
}

pub open spec fn not_found_text(fragment: Seq<char>) -> Seq<char> {
    "Task not found: "@ + fragment + "\n\nTry:\n\x1b[1m  tasks list\x1b[0m           # List all tasks\n\x1b[1m  tasks search "@
        + fragment + "\x1b[0m  # Search for tasks"@
}

/// "Invalid <what>: '<value>'", then the valid values (`kinds` names them).
pub open spec fn invalid_value_text(
    what: Seq<char>,
    kinds: Seq<char>,
    value: Seq<char>,
    valid: Seq<Seq<char>>,
) -> Seq<char> {
    "Invalid "@ + what + ": '"@ + value + "'\n\nValid "@ + kinds + " are: "@ + joined(valid, ", "@)
}

pub open spec fn file_context_text(path: Seq<char>, operation: Seq<char>) -> Seq<char> {
    "Failed to "@ + operation + " file: "@ + path
}

/// The message that `e` carries.
pub open spec fn message_text(e: TaskError) -> Seq<char> {
    match e {
        TaskError::NotInitialized => not_initialized_text(),
        TaskError::MalformedTask { detail } => detail@,
        TaskError::NotFound { fragment } => not_found_text(fragment@),
        TaskError::InvalidStatus { status, valid } => invalid_value_text(
            "status"@,
            "statuses"@,
            status@,
            views_of(valid@),
        ),
        TaskError::InvalidPriority { priority, valid } => invalid_value_text(
            "priority"@,
            "priorities"@,
            priority@,
            views_of(valid@),
        ),
        TaskError::IoFailure { path, operation } => file_context_text(path@, operation@),
        TaskError::UnknownHook { name } => "Unknown hook type: "@ + name@
            + ". Valid types: pre-commit, post-commit, prepare-commit-msg, post-checkout"@,
        TaskError::EmptyTitle => "Task title cannot be empty"@,
    }
}

fn invalid_value_message(what: &str, kinds: &str, value: &str, valid: &[String]) -> (r: String)
    ensures
        r@ == invalid_value_text(what@, kinds@, value@, views_of(valid@)),
{
    let mut s = "Invalid ".to_owned();
    s.append(what);
    s.append(": '");
    s.append(value);
    s.append("'\n\nValid ");
    s.append(kinds);
    s.append(" are: ");
    let j = join(valid, ", ");
    s.append(j.as_str());
    s
}


impl TaskError {
    /// The human-readable message of this error.
    pub fn message(&self) -> (r: String)
        ensures
            r@ == message_text(*self),
    {
        match self {
            TaskError::NotInitialized => {
                "Not in a repo-tasks repository.\n\nTo get started, run:\n\n\x1b[1m  tasks init\x1b[0m\n\nThis will create a .repo-tasks/ directory in your current location.".to_owned()
            },
            TaskError::MalformedTask { detail } => detail.clone(),
            TaskError::NotFound { fragment } => {
                let mut s = "Task not found: ".to_owned();
                s.append(fragment.as_str());
                s.append(
                    "\n\nTry:\n\x1b[1m  tasks list\x1b[0m           # List all tasks\n\x1b[1m  tasks search ",
                );
                s.append(fragment.as_str());
                s.append("\x1b[0m  # Search for tasks");
                s
            },
            TaskError::InvalidStatus { status, valid } => invalid_value_message(
                "status",
                "statuses",
                status.as_str(),
                valid.as_slice(),
            ),
            TaskError::InvalidPriority { priority, valid } => invalid_value_message(
                "priority",
                "priorities",
                priority.as_str(),
                valid.as_slice(),
            ),
            TaskError::IoFailure { path, operation } => file_context(path.as_str(), operation.as_str()),
            TaskError::UnknownHook { name } => {
                let mut s = "Unknown hook type: ".to_owned();
                s.append(name.as_str());
                s.append(". Valid types: pre-commit, post-commit, prepare-commit-msg, post-checkout");
                s
            },
            TaskError::EmptyTitle => "Task title cannot be empty".to_owned(),
        }
    }
}

/// Fails with `NotInitialized` exactly when the store is not initialized.
pub fn ensure_initialized(initialized: bool) -> (r: Result<(), TaskError>)
    ensures
        initialized <==> r is Ok,
        !initialized ==> r matches Err(TaskError::NotInitialized),
{
    if initialized {
        Ok(())
    } else {
        Err(TaskError::NotInitialized)
    }
}

/// The error for a fragment that names no task.
pub fn task_not_found(slug_or_id: &str) -> (r: TaskError)
    ensures
        r matches TaskError::NotFound { fragment } && fragment@ == slug_or_id@,
{
    TaskError::NotFound { fragment: slug_or_id.to_owned() }
}

/// "Failed to <operation> file: <path>".
pub fn file_context(path: &str, operation: &str) -> (r: String)
    ensures
        r@ == file_context_text(path@, operation@),
{
    let mut s = "Failed to ".to_owned();
    s.append(operation);
    s.append(" file: ");
    s.append(path);
    s
}

/// The error for a status outside `valid_statuses`.
pub fn invalid_status(status: &str, valid_statuses: &[String]) -> (r: TaskError)
    ensures
        r matches TaskError::InvalidStatus { status: s, valid } && s@ == status@ && valid@
            == valid_statuses@,
{
    TaskError::InvalidStatus { status: status.to_owned(), valid: copy_texts(valid_statuses) }
}

/// The error for a priority outside `valid_priorities`.
pub fn invalid_priority(priority: &str, valid_priorities: &[String]) -> (r: TaskError)
    ensures
        r matches TaskError::InvalidPriority { priority: p, valid } && p@ == priority@ && valid@
            == valid_priorities@,
{
    TaskError::InvalidPriority { priority: priority.to_owned(), valid: copy_texts(valid_priorities) }
}

} // verus!
