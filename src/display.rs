//! What a task table shows, before any terminal styling.
use crate::task::Task;
use crate::text::{join, joined, same_text, views_of};
use vstd::prelude::*;

verus! {

/// The symbol shown before a priority.
pub open spec fn priority_symbol_text(priority: Seq<char>) -> Seq<char> {
    if priority == "Critical"@ {
        "\u{1f534}"@
    } else if priority == "High"@ {
        "\u{1f7e0}"@
    } else if priority == "Medium"@ {
        "\u{1f7e1}"@
    } else if priority == "Low"@ {
        "\u{1f7e2}"@
    } else {
        "\u{26aa}"@
    }
}

/// The symbol shown before a priority: a red, orange, yellow or green circle for
/// Critical, High, Medium and Low, a white one for any other.
pub fn priority_symbol(priority: &str) -> (r: &'static str)
    ensures
        r@ == priority_symbol_text(priority@),
{
    if same_text(priority, "Critical") {
        "\u{1f534}"
    } else if same_text(priority, "High") {
        "\u{1f7e0}"
    } else if same_text(priority, "Medium") {
        "\u{1f7e1}"
    } else if same_text(priority, "Low") {
        "\u{1f7e2}"
    } else {
        "\u{26aa}"
    }
}

/// The symbol, a space, then the priority.
pub fn priority_for_table(priority: &str) -> (r: String)
    ensures
        r@ == priority_symbol_text(priority@) + " "@ + priority@,
{
    let mut s = priority_symbol(priority).to_owned();
    s.append(" ");
    s.append(priority);
    s
}

/// The priority a listing shows for a task: its own, or `Medium` when it has none.
pub open spec fn shown_priority(t: Task) -> Seq<char> {
    match t.priority {
        Some(p) => p@,
        None => "Medium"@,
    }
}

/// The cells of a task's row: priority, identifier, title and tags.
pub open spec fn row_text(t: Task) -> Seq<Seq<char>> {
    seq![
        priority_symbol_text(shown_priority(t)) + " "@ + shown_priority(t),
        t.id@,
        t.title@,
        match t.tags {
            Some(tags) => joined(views_of(tags@), ", "@),
            None => Seq::empty(),
        },
    ]
}

/// The header of a task table.
pub fn table_header() -> (r: Vec<String>)
    ensures
        views_of(r@) == seq!["Priority"@, "ID"@, "Title"@, "Tags"@],
{
    let r = vec!["Priority".to_owned(), "ID".to_owned(), "Title".to_owned(), "Tags".to_owned()];
    assert(views_of(r@) =~= seq!["Priority"@, "ID"@, "Title"@, "Tags"@]);
    r
}

/// The cells of the row of `task` in a task table.
pub fn table_row(task: &Task) -> (r: Vec<String>)
    ensures
        views_of(r@) == row_text(*task),
{
    let priority = match &task.priority {
        Some(p) => priority_for_table(p.as_str()),
        None => priority_for_table("Medium"),
    };
    let tags = match &task.tags {
        Some(ts) => join(ts.as_slice(), ", "),
        None => String::new(),
    };
    let r = vec![priority, task.id.clone(), task.title.clone(), tags];
    assert(views_of(r@) =~= row_text(*task));
    r
}

} // verus!
