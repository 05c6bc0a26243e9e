//! The configuration of a task store.
use crate::errors::TaskError;
use crate::text::{copy_texts, holds_text, views_of};
use vstd::prelude::*;

verus! {

/// Project name, the ordered statuses (the task directories), the ordered priorities
/// (a later one ranks higher) and whether changes are committed on their own.
#[derive(Debug, Clone)]
pub struct Config {
    pub project_name: String,
    pub statuses: Vec<String>,
    pub priorities: Vec<String>,
    pub auto_commit: bool,
}

pub open spec fn default_statuses() -> Seq<Seq<char>> {
    seq!["todo"@, "in-progress"@, "testing"@, "done"@]
}

pub open spec fn default_priorities() -> Seq<Seq<char>> {
    seq!["Low"@, "Medium"@, "High"@, "Critical"@]
}

impl Config {
    /// The configuration a store starts with. Without a project name, the name is
    /// `my-project` (callers pass the name of the working directory when they know it).
    pub fn default(project_name: Option<String>) -> (c: Config)
        ensures
            c.project_name@ == match project_name {
                Some(n) => n@,
                None => "my-project"@,
            },
            views_of(c.statuses@) == default_statuses(),
            views_of(c.priorities@) == default_priorities(),
            !c.auto_commit,
    {
        let name = match project_name {
            Some(n) => n,
            None => "my-project".to_owned(),
        };
        let statuses = vec![
            "todo".to_owned(),
            "in-progress".to_owned(),
            "testing".to_owned(),
            "done".to_owned(),
        ];
        let priorities = vec![
            "Low".to_owned(),
            "Medium".to_owned(),
            "High".to_owned(),
            "Critical".to_owned(),
        ];
        assert(views_of(statuses@) =~= default_statuses());
        assert(views_of(priorities@) =~= default_priorities());
        Config { project_name: name, statuses, priorities, auto_commit: false }
    }

    /// Where the configuration is stored.
    pub fn config_path() -> (r: String)
        ensures
            r@ == ".repo-tasks/config.json"@,
    {
        ".repo-tasks/config.json".to_owned()
    }

    /// Accepts a status of the configured list, rejects any other with `InvalidStatus`.
    pub fn check_status(&self, status: &str) -> (r: Result<(), TaskError>)
        ensures
            r is Ok <==> views_of(self.statuses@).contains(status@),
            r matches Err(e) ==> (e matches TaskError::InvalidStatus { status: s, valid } && s@
                == status@ && valid@ == self.statuses@),
    {
        if holds_text(self.statuses.as_slice(), status) {
            Ok(())
        } else {
            Err(TaskError::InvalidStatus {
                status: status.to_owned(),
                valid: copy_texts(self.statuses.as_slice()),
            })
        }
    }

    /// The priority of a task created without prompting: the given one, which must be
    /// configured (`InvalidPriority` otherwise), or `Medium`.
    pub fn priority_from_argument(&self, priority: Option<String>) -> (r: Result<String, TaskError>)
        ensures
            match priority {
                Some(p) => {
                    &&& r is Ok <==> views_of(self.priorities@).contains(p@)
                    &&& r matches Ok(q) ==> q == p
                    &&& r matches Err(e) ==> e is InvalidPriority
                },
                None => r matches Ok(q) && q@ == "Medium"@,
            },
    {
        match priority {
            Some(p) => match self.check_priority(p.as_str()) {
                Ok(()) => Ok(p),
                Err(e) => Err(e),
            },
            None => Ok("Medium".to_owned()),
        }
    }

    /// Accepts a priority of the configured list, rejects any other with
    /// `InvalidPriority`.
    pub fn check_priority(&self, priority: &str) -> (r: Result<(), TaskError>)
        ensures
            r is Ok <==> views_of(self.priorities@).contains(priority@),
            r matches Err(e) ==> (e matches TaskError::InvalidPriority { priority: p, valid }
                && p@ == priority@ && valid@ == self.priorities@),
    {
        if holds_text(self.priorities.as_slice(), priority) {
            Ok(())
        } else {
            Err(TaskError::InvalidPriority {
                priority: priority.to_owned(),
                valid: copy_texts(self.priorities.as_slice()),
            })
        }
    }
}

} // verus!
