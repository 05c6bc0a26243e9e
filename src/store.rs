//! The decisions of the task store: which file a fragment names, what a move does, and
//! which tasks a listing shows in which order. Reading and writing the files is left to
//! the caller, which reports back what happened.
use crate::errors::TaskError;
use crate::task::{file_name_text, status_dir_text, Task};
use crate::text::{chars_of, holds_text, occurs, occurs_in, same_text, views_of};
use vstd::prelude::*;

verus! {

// ---------------------------------------------------------------------------
// Looking a task up by a fragment of its file name
// ---------------------------------------------------------------------------

/// A file found in a status directory.
#[derive(Debug, Clone)]
pub struct TaskFileEntry {
    /// The file name, without directory.
    pub file_name: String,
    /// Whether the file could be read and parsed as a task.
    pub parses: bool,
}

/// A name with the task-file extension: `.md` after at least one character.
pub open spec fn is_task_file_name(name: Seq<char>) -> bool {
    name.len() > 3 && name.subrange(name.len() - 3, name.len() as int) == seq!['.', 'm', 'd']
}

/// A task file whose name contains `fragment`.
pub open spec fn name_matches(name: Seq<char>, fragment: Seq<char>) -> bool {
    is_task_file_name(name) && occurs_in(name, fragment)
}

/// Entry `i` is a parsable task file whose name contains `fragment`.
pub open spec fn selectable(entries: Seq<TaskFileEntry>, fragment: Seq<char>, i: int) -> bool {
    0 <= i < entries.len() && name_matches(entries[i].file_name@, fragment) && entries[i].parses
}

/// The entry that a lookup by `fragment` picks: the first selectable one, in the order
/// the directories were read.
pub open spec fn found_entry(entries: Seq<TaskFileEntry>, fragment: Seq<char>) -> Option<int> {
    if exists|i: int| selectable(entries, fragment, i) {
        Some(
            choose|i: int|
                selectable(entries, fragment, i) && forall|k: int|
                    0 <= k < i ==> !selectable(entries, fragment, k),
        )
    } else {
        None
    }
}

pub fn is_task_file(name: &str) -> (r: bool)
    ensures
        r == is_task_file_name(name@),
{
    let t = chars_of(name);
    let n = t.len();
    if n <= 3 || t[n - 3] != '.' || t[n - 2] != 'm' || t[n - 1] != 'd' {
        proof {
            if n > 3 {
                let sfx = t@.subrange(n - 3, n as int);
                if sfx == seq!['.', 'm', 'd'] {
                    assert(sfx[0] == '.' && sfx[1] == 'm' && sfx[2] == 'd');
                }
            }
        }
        return false;
    }
    assert(t@.subrange(n - 3, n as int) =~= seq!['.', 'm', 'd']);
    true
}

/// Whether `name` is a task file whose name contains `fragment`.
pub fn matches_fragment(name: &str, fragment: &str) -> (r: bool)
    ensures
        r == name_matches(name@, fragment@),
{
    if !is_task_file(name) {
        return false;
    }
    let t = chars_of(name);
    let f = chars_of(fragment);
    occurs(&t, &f)
}

/// Finds the task that `fragment` names: the first entry, in the order given, that is a
/// task file whose name contains `fragment` and that parses. Fails with `NotFound` when
/// there is none.
pub fn find_by_fragment(entries: &Vec<TaskFileEntry>, fragment: &str) -> (r: Result<
    usize,
    TaskError,
>)
    ensures
        match r {
            Ok(i) => found_entry(entries@, fragment@) == Some(i as int),
            Err(e) => found_entry(entries@, fragment@) is None && (e matches TaskError::NotFound {
                fragment: f,
            } && f@ == fragment@),
        },
{
    let mut i: usize = 0;
    while i < entries.len()
        invariant
            i <= entries@.len(),
            forall|k: int| 0 <= k < i ==> !selectable(entries@, fragment@, k),
        decreases entries@.len() - i,
    {
        if entries[i].parses && matches_fragment(entries[i].file_name.as_str(), fragment) {
            proof {
                assert(selectable(entries@, fragment@, i as int));
                let j = choose|j: int|
                    selectable(entries@, fragment@, j) && forall|k: int|
                        0 <= k < j ==> !selectable(entries@, fragment@, k);
                if j < i {
                } else if j > i {
                    assert(!selectable(entries@, fragment@, i as int));
                }
            }
            return Ok(i);
        }
        i += 1;
    }
    Err(TaskError::NotFound { fragment: fragment.to_owned() })
}

/// A lookup by a fragment that no task file name contains fails.
pub proof fn lemma_unmatched_fragment_not_found(entries: Seq<TaskFileEntry>, fragment: Seq<char>)
    requires
        forall|i: int| 0 <= i < entries.len() ==> !name_matches(#[trigger] entries[i].file_name@, fragment),
    ensures
        found_entry(entries, fragment) is None,
{
    assert forall|i: int| !selectable(entries, fragment, i) by {
        if 0 <= i < entries.len() {
            assert(!name_matches(entries[i].file_name@, fragment));
        }
    }
}

// ---------------------------------------------------------------------------
// Moving a task to another status
// ---------------------------------------------------------------------------

/// What a move has to do.
#[derive(Debug, Clone)]
pub enum MovePlan {
    /// The task already has the target status: nothing is to be done.
    AlreadyAtTarget,
    /// Write the task to `write_path`, then delete `delete_path`.
    WriteThenDelete { write_path: String, delete_path: String },
}

/// How a move ended.
#[derive(Debug, Clone)]
pub enum MoveOutcome {
    /// The task now lies at `path` only.
    Moved { path: String },
    /// The task already had the target status; no file was touched.
    AlreadyAtTarget,
    /// The task was written to `new_path`, but `old_path` could not be deleted: it now
    /// lies at both.
    PartiallyMoved { new_path: String, old_path: String },
}

/// The path of the task's file in the directory of `status`.
pub open spec fn task_path_text(task: Task, status: Seq<char>) -> Seq<char> {
    status_dir_text(status) + seq!['/'] + file_name_text(task.id@, task.slug@)
}

/// Plans the move of `task`, whose file is `from_path`, to `to_status`. A task that
/// already has that status needs no file operation at all.
pub fn plan_move(task: &Task, from_path: &str, to_status: &str) -> (r: MovePlan)
    ensures
        task.status@ == to_status@ <==> r is AlreadyAtTarget,
        r matches MovePlan::WriteThenDelete { write_path, delete_path } ==> write_path@
            == task_path_text(*task, to_status@) && delete_path@ == from_path@,
{
    if same_text(task.status.as_str(), to_status) {
        MovePlan::AlreadyAtTarget
    } else {
        MovePlan::WriteThenDelete {
            write_path: task.file_path(to_status),
            delete_path: from_path.to_owned(),
        }
    }
}

/// The end of a move, from whether the write and then the delete succeeded. A failed
/// write is an `IoFailure` on the new path (and no delete was attempted); a failed delete
/// after a good write leaves the task at two paths, which is reported as such.
pub fn move_outcome(plan: &MovePlan, written: bool, deleted: bool) -> (r: Result<
    MoveOutcome,
    TaskError,
>)
    ensures
        match *plan {
            MovePlan::AlreadyAtTarget => r matches Ok(MoveOutcome::AlreadyAtTarget),
            MovePlan::WriteThenDelete { write_path, delete_path } => {
                &&& !written ==> (r matches Err(TaskError::IoFailure { path, operation }) && path
                    == write_path && operation@ == "write"@)
                &&& written && deleted ==> (r matches Ok(MoveOutcome::Moved { path }) && path
                    == write_path)
                &&& written && !deleted ==> (r matches Ok(
                    MoveOutcome::PartiallyMoved { new_path, old_path },
                ) && new_path == write_path && old_path == delete_path)
            },
        },
{
    match plan {
        MovePlan::AlreadyAtTarget => Ok(MoveOutcome::AlreadyAtTarget),
        MovePlan::WriteThenDelete { write_path, delete_path } => {
            if !written {
                Err(TaskError::IoFailure { path: write_path.clone(), operation: "write".to_owned() })
            } else if deleted {
                Ok(MoveOutcome::Moved { path: write_path.clone() })
            } else {
                Ok(
                    MoveOutcome::PartiallyMoved {
                        new_path: write_path.clone(),
                        old_path: delete_path.clone(),
                    },
                )
            }
        },
    }
}

// ---------------------------------------------------------------------------
// Listing
// ---------------------------------------------------------------------------

/// The task passes the optional priority and tag filters.
pub open spec fn passes_filters(t: Task, priority: Option<Seq<char>>, tag: Option<Seq<char>>) -> bool {
    &&& match priority {
        Some(p) => t.priority matches Some(q) && q@ == p,
        None => true,
    }
    &&& match tag {
        Some(g) => t.tags matches Some(ts) && views_of(ts@).contains(g),
        None => true,
    }
}

/// The tasks of `s` that pass the filters, in order.
pub open spec fn filtered(s: Seq<Task>, priority: Option<Seq<char>>, tag: Option<Seq<char>>) -> Seq<
    Task,
>
    decreases s.len(),
{
    if s.len() == 0 {
        s
    } else if passes_filters(s.last(), priority, tag) {
        filtered(s.drop_last(), priority, tag).push(s.last())
    } else {
        filtered(s.drop_last(), priority, tag)
    }
}

pub open spec fn str_option_view(o: Option<&str>) -> Option<Seq<char>> {
    match o {
        Some(s) => Some(s@),
        None => None,
    }
}

fn passes(t: &Task, priority: Option<&str>, tag: Option<&str>) -> (r: bool)
    ensures
        r == passes_filters(*t, str_option_view(priority), str_option_view(tag)),
{
    let priority_ok = match priority {
        Some(p) => match &t.priority {
            Some(q) => same_text(q.as_str(), p),
            None => false,
        },
        None => true,
    };
    let tag_ok = match tag {
        Some(g) => match &t.tags {
            Some(ts) => holds_text(ts.as_slice(), g),
            None => false,
        },
        None => true,
    };
    priority_ok && tag_ok
}

/// Keeps the tasks with the given priority (if any) and carrying the given tag (if any),
/// in their order.
pub fn filter_tasks(tasks: Vec<Task>, priority: Option<&str>, tag: Option<&str>) -> (r: Vec<Task>)
    ensures
        r@ == filtered(tasks@, str_option_view(priority), str_option_view(tag)),
{
    let ghost all = tasks@;
    let mut out: Vec<Task> = Vec::new();
    for t in it: tasks.into_iter()
        invariant
            it.seq() == all,
            out@ == filtered(all.take(it.index() as int), str_option_view(priority), str_option_view(tag)),
    {
        let ghost before = all.take(it.index() as int);
        proof {
            assert(all.take(it.index() + 1).drop_last() =~= before);
        }
        if passes(&t, priority, tag) {
            out.push(t);
        }
    }
    assert(all.take(all.len() as int) =~= all);
    out
}


/// `j` is the first position of `p` in `ps`.
pub open spec fn first_position(ps: Seq<Seq<char>>, p: Seq<char>, j: int) -> bool {
    0 <= j < ps.len() && ps[j] == p && forall|m: int| 0 <= m < j ==> ps[m] != p
}

/// Where a task goes in a listing: the highest configured priority first (rank 0), a
/// task without a configured priority last (rank `ps.len()`).
pub open spec fn listing_rank(t: Task, ps: Seq<Seq<char>>) -> int {
    match t.priority {
        Some(p) => if ps.contains(p@) {
            let j = choose|j: int| first_position(ps, p@, j);
            ps.len() - 1 - j
        } else {
            ps.len() as int
        },
        None => ps.len() as int,
    }
}

/// The indices below `n` of the tasks of rank `r`, in order.
pub open spec fn indices_of_rank(s: Seq<Task>, ps: Seq<Seq<char>>, r: int, n: int) -> Seq<int>
    decreases n,
{
    if n <= 0 {
        Seq::empty()
    } else if listing_rank(s[n - 1], ps) == r {
        indices_of_rank(s, ps, r, n - 1).push(n - 1)
    } else {
        indices_of_rank(s, ps, r, n - 1)
    }
}

/// The indices of the tasks of ranks below `r`: rank by rank, each rank in task order.
pub open spec fn indices_below_rank(s: Seq<Task>, ps: Seq<Seq<char>>, r: int) -> Seq<int>
    decreases r,
{
    if r <= 0 {
        Seq::empty()
    } else {
        indices_below_rank(s, ps, r - 1) + indices_of_rank(s, ps, r - 1, s.len() as int)
    }
}

/// The order of a listing: by rank, and in the given order within a rank.
pub open spec fn listing_order(s: Seq<Task>, ps: Seq<Seq<char>>) -> Seq<int> {
    indices_below_rank(s, ps, ps.len() + 1int)
}

fn rank_of(t: &Task, ps: &[String]) -> (r: usize)
    ensures
        r == listing_rank(*t, views_of(ps@)),
{
    match &t.priority {
        None => ps.len(),
        Some(p) => {
            let ghost v = views_of(ps@);
            let mut j: usize = 0;
            while j < ps.len()
                invariant
                    j <= ps@.len(),
                    v == views_of(ps@),
                    t.priority == Some(*p),
                    forall|m: int| 0 <= m < j ==> v[m] != p@,
                decreases ps@.len() - j,
            {
                if same_text(ps[j].as_str(), p.as_str()) {
                    proof {
                        assert(v[j as int] == p@);
                        assert(v.contains(p@));
                        assert(first_position(v, p@, j as int));
                        let k = choose|k: int| first_position(v, p@, k);
                        if k < j {
                        } else if k > j {
                            assert(v[j as int] != p@);
                        }
                    }
                    return ps.len() - 1 - j;
                }
                j += 1;
            }
            ps.len()
        },
    }
}

/// The order in which a listing shows `tasks`, as indices into it: tasks of the highest
/// configured priority first, then the next, and so on; tasks without a configured
/// priority last. Within one priority the given order is kept.
pub fn listing_order_of(tasks: &[Task], priorities: &[String]) -> (r: Vec<usize>)
    ensures
        r@.map_values(|i: usize| i as int) == listing_order(tasks@, views_of(priorities@)),
{
    let ghost ps = views_of(priorities@);
    let mut ranks: Vec<usize> = Vec::new();
    let mut i: usize = 0;
    while i < tasks.len()
        invariant
            i <= tasks@.len(),
            ranks@.len() == i,
            ps == views_of(priorities@),
            forall|k: int| 0 <= k < i ==> ranks@[k] == listing_rank(tasks@[k], ps),
        decreases tasks@.len() - i,
    {
        ranks.push(rank_of(&tasks[i], priorities));
        i += 1;
    }
    let mut out: Vec<usize> = Vec::new();
    let mut r: usize = 0;
    while r <= priorities.len()
        invariant
            r <= priorities@.len() + 1,
            ranks@.len() == tasks@.len(),
            ps == views_of(priorities@),
            forall|k: int| 0 <= k < tasks@.len() ==> ranks@[k] == listing_rank(tasks@[k], ps),
            out@.map_values(|i: usize| i as int) == indices_below_rank(tasks@, ps, r as int),
        decreases priorities@.len() + 1 - r,
    {
        let ghost base = out@.map_values(|i: usize| i as int);
        let mut i: usize = 0;
        while i < tasks.len()
            invariant
                i <= tasks@.len(),
                ranks@.len() == tasks@.len(),
                forall|k: int| 0 <= k < tasks@.len() ==> ranks@[k] == listing_rank(tasks@[k], ps),
                out@.map_values(|i: usize| i as int) == base + indices_of_rank(
                    tasks@,
                    ps,
                    r as int,
                    i as int,
                ),
            decreases tasks@.len() - i,
        {
            if ranks[i] == r {
                let ghost old_out = out@;
                out.push(i);
                assert(indices_of_rank(tasks@, ps, r as int, i + 1) == indices_of_rank(
                    tasks@,
                    ps,
                    r as int,
                    i as int,
                ).push(i as int));
                assert(out@.map_values(|i: usize| i as int) =~= old_out.map_values(
                    |i: usize| i as int,
                ).push(i as int));
                assert(out@.map_values(|i: usize| i as int) =~= base + indices_of_rank(
                    tasks@,
                    ps,
                    r as int,
                    i + 1,
                ));
            }
            i += 1;
        }
        if r == priorities.len() {
            return out;
        }
        r += 1;
    }
    out
}


/// The file to delete after a task was edited and written to `new_path`: its old file,
/// when that lay elsewhere.
pub fn stale_file(old_path: &str, new_path: &str) -> (r: Option<String>)
    ensures
        r is None <==> old_path@ == new_path@,
        r matches Some(p) ==> p@ == old_path@,
{
    if same_text(old_path, new_path) {
        None
    } else {
        Some(old_path.to_owned())
    }
}

} // verus!
