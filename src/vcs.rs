//! Text that goes to version control: commit messages and branch names.
use crate::clock::{decimal, push_decimal};
use crate::task::Task;
use crate::text::joined;
use vstd::prelude::*;

verus! {

/// "<n> <what>" when `n` is not zero.
pub open spec fn count_part(n: nat, what: Seq<char>) -> Seq<Seq<char>> {
    if n > 0 {
        seq![decimal(n) + " "@ + what]
    } else {
        Seq::empty()
    }
}

/// The message of a commit of task files: `Update tasks`, followed by the counts of
/// added, modified and deleted files that are not zero.
pub open spec fn commit_message_text(added: nat, modified: nat, deleted: nat) -> Seq<char> {
    let parts = count_part(added, "added"@) + count_part(modified, "modified"@) + count_part(
        deleted,
        "deleted"@,
    );
    if parts.len() == 0 {
        "Update tasks"@
    } else {
        "Update tasks: "@ + joined(parts, ", "@)
    }
}

proof fn lemma_joined_push(parts: Seq<Seq<char>>, x: Seq<char>, sep: Seq<char>)
    ensures
        joined(parts.push(x), sep) == if parts.len() == 0 {
            x
        } else {
            joined(parts, sep) + sep + x
        },
{
    assert(parts.push(x).drop_last() =~= parts);
}

fn push_count(
    out: &mut String,
    first: bool,
    n: u64,
    what: &str,
    prefix: Ghost<Seq<char>>,
    parts: Ghost<Seq<Seq<char>>>,
)
    requires
        n > 0,
        first == (parts@.len() == 0),
        old(out)@ == prefix@ + joined(parts@, ", "@),
    ensures
        final(out)@ == prefix@ + joined(parts@.push(decimal(n as nat) + " "@ + what@), ", "@),
{
    proof {
        lemma_joined_push(parts@, decimal(n as nat) + " "@ + what@, ", "@);
    }
    if !first {
        out.append(", ");
    }
    push_decimal(out, n);
    out.append(" ");
    out.append(what);
    proof {
        if first {
            assert(joined(parts@, ", "@) =~= Seq::<char>::empty());
        }
    }
    assert(out@ =~= prefix@ + joined(parts@.push(decimal(n as nat) + " "@ + what@), ", "@));
}

/// The message for committing task files when none was given.
pub fn commit_message_for(added: u64, modified: u64, deleted: u64) -> (r: String)
    ensures
        r@ == commit_message_text(added as nat, modified as nat, deleted as nat),
{
    let ghost all = count_part(added as nat, "added"@) + count_part(modified as nat, "modified"@)
        + count_part(deleted as nat, "deleted"@);
    if added == 0 && modified == 0 && deleted == 0 {
        assert(all =~= Seq::<Seq<char>>::empty());
        return "Update tasks".to_owned();
    }
    let mut s = "Update tasks: ".to_owned();
    let ghost start = s@;
    let ghost mut parts: Seq<Seq<char>> = Seq::empty();
    assert(s@ =~= start + joined(parts, ", "@));
    if added > 0 {
        push_count(&mut s, true, added, "added", Ghost(start), Ghost(parts));
        proof {
            parts = parts.push(decimal(added as nat) + " "@ + "added"@);
        }
    }
    assert(parts =~= count_part(added as nat, "added"@));
    if modified > 0 {
        push_count(&mut s, added == 0, modified, "modified", Ghost(start), Ghost(parts));
        proof {
            parts = parts.push(decimal(modified as nat) + " "@ + "modified"@);
        }
    }
    assert(parts =~= count_part(added as nat, "added"@) + count_part(modified as nat, "modified"@));
    if deleted > 0 {
        push_count(
            &mut s,
            added == 0 && modified == 0,
            deleted,
            "deleted",
            Ghost(start),
            Ghost(parts),
        );
        proof {
            parts = parts.push(decimal(deleted as nat) + " "@ + "deleted"@);
        }
    }
    assert(parts =~= all);
    s
}

impl Task {
    /// The name of the branch for work on the task: `ID-SLUG`.
    pub fn branch_name(&self) -> (r: String)
        ensures
            r@ == self.id@ + "-"@ + self.slug@,
    {
        let mut s = self.id.clone();
        s.append("-");
        s.append(self.slug.as_str());
        s
    }
}

} // verus!
