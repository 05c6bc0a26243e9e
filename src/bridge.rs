//! Turning what a commit message says into status transitions of tasks.
use crate::commit::{keyword_views, CommitInfo, StatusKeyword};
use crate::text::same_text;
use vstd::prelude::*;

verus! {

/// A task to move, and where.
#[derive(Debug, Clone)]
pub struct Transition {
    pub task_id: String,
    pub target_status: String,
}

/// Some keyword of `ks` asks for `status`.
pub open spec fn asks_for(ks: Seq<(Seq<char>, Seq<char>)>, status: Seq<char>) -> bool {
    exists|i: int| 0 <= i < ks.len() && (#[trigger] ks[i]).1 == status
}

/// The single status the keywords lead to: done before testing before in-progress.
pub open spec fn target_of(ks: Seq<(Seq<char>, Seq<char>)>) -> Option<Seq<char>> {
    if asks_for(ks, "done"@) {
        Some("done"@)
    } else if asks_for(ks, "testing"@) {
        Some("testing"@)
    } else if asks_for(ks, "in-progress"@) {
        Some("in-progress"@)
    } else {
        None
    }
}

fn any_asks_for(keywords: &Vec<StatusKeyword>, status: &str) -> (r: bool)
    ensures
        r == asks_for(keyword_views(keywords@), status@),
{
    let ghost ks = keyword_views(keywords@);
    let mut i: usize = 0;
    while i < keywords.len()
        invariant
            i <= keywords@.len(),
            ks == keyword_views(keywords@),
            forall|k: int| 0 <= k < i ==> (#[trigger] ks[k]).1 != status@,
        decreases keywords@.len() - i,
    {
        if same_text(keywords[i].target_status.as_str(), status) {
            assert(ks[i as int].1 == status@);
            return true;
        }
        i += 1;
    }
    false
}

/// The status that the keywords of a commit move its tasks to, if any: `done` wins over
/// `testing`, which wins over `in-progress`, wherever they stand in the message.
pub fn transition_target(keywords: &Vec<StatusKeyword>) -> (r: Option<String>)
    ensures
        match r {
            Some(s) => target_of(keyword_views(keywords@)) == Some(s@),
            None => target_of(keyword_views(keywords@)) is None,
        },
{
    if any_asks_for(keywords, "done") {
        Some("done".to_owned())
    } else if any_asks_for(keywords, "testing") {
        Some("testing".to_owned())
    } else if any_asks_for(keywords, "in-progress") {
        Some("in-progress".to_owned())
    } else {
        None
    }
}

/// One transition per task identifier of the commit, all to the status its keywords
/// lead to; none when they lead nowhere. Each is carried out (or fails) on its own.
pub fn plan_transitions(info: &CommitInfo) -> (r: Vec<Transition>)
    ensures
        match target_of(keyword_views(info.status_keywords@)) {
            None => r@.len() == 0,
            Some(target) => {
                &&& r@.len() == info.task_ids@.len()
                &&& forall|i: int|
                    0 <= i < r@.len() ==> (#[trigger] r@[i]).task_id@ == info.task_ids@[i]@
                        && r@[i].target_status@ == target
            },
        },
{
    let mut out: Vec<Transition> = Vec::new();
    match transition_target(&info.status_keywords) {
        None => out,
        Some(target) => {
            let mut i: usize = 0;
            while i < info.task_ids.len()
                invariant
                    i <= info.task_ids@.len(),
                    out@.len() == i,
                    forall|k: int|
                        0 <= k < i ==> (#[trigger] out@[k]).task_id@ == info.task_ids@[k]@
                            && out@[k].target_status@ == target@,
                decreases info.task_ids@.len() - i,
            {
                out.push(
                    Transition {
                        task_id: info.task_ids[i].clone(),
                        target_status: target.clone(),
                    },
                );
                i += 1;
            }
            out
        },
    }
}

} // verus!
