//! Reading task references and status keywords out of commit messages.
use crate::text::{
    ascii_lower, is_ascii_text, chars_of, is_space, matches_at, occurs, occurs_at, occurs_in, space_char, string_of, views_of,
};
use vstd::prelude::*;

verus! {

/// Number of decimal digits in a task identifier.
pub const ID_LEN: usize = 14;

/// A status keyword found in a commit message.
#[derive(Debug, Clone)]
pub struct StatusKeyword {
    /// The keyword that was matched.
    pub keyword: String,
    /// The status that the keyword asks for.
    pub target_status: String,
}

impl View for StatusKeyword {
    type V = (Seq<char>, Seq<char>);

    open spec fn view(&self) -> (Seq<char>, Seq<char>) {
        (self.keyword@, self.target_status@)
    }
}

/// What a commit message says about tasks.
#[derive(Debug, Clone)]
pub struct CommitInfo {
    /// Identifiers referenced by the message, first occurrence first, each once.
    pub task_ids: Vec<String>,
    /// Status keywords, at most one per category, in the order done, testing, in-progress.
    pub status_keywords: Vec<StatusKeyword>,
}

pub open spec fn keyword_views(v: Seq<StatusKeyword>) -> Seq<(Seq<char>, Seq<char>)> {
    v.map_values(|k: StatusKeyword| k@)
}

// ---------------------------------------------------------------------------
// Task identifiers
// ---------------------------------------------------------------------------

pub open spec fn is_digit(c: char) -> bool {
    '0' <= c && c <= '9'
}

/// Fourteen decimal digits start at position `i` of `t`.
pub open spec fn digits_at(t: Seq<char>, i: int) -> bool {
    &&& 0 <= i
    &&& i + 14 <= t.len()
    &&& forall|k: int| i <= k < i + 14 ==> is_digit(#[trigger] t[k])
}

/// A task reference starts at position `i`: a run of exactly fourteen decimal digits,
/// with no digit right before or right after it. A marker such as `[`, `#`, `task/`,
/// `closes #` or `fixes #` may stand before it, but none is needed.
pub open spec fn reference_at(t: Seq<char>, i: int) -> bool {
    &&& digits_at(t, i)
    &&& (i == 0 || !is_digit(t[i - 1]))
    &&& (i + 14 == t.len() || !is_digit(t[i + 14]))
}

/// The identifiers of the references whose digits start before position `n`, in order,
/// repeats included.
pub open spec fn references_before(t: Seq<char>, n: int) -> Seq<Seq<char>>
    decreases n,
{
    if n <= 0 {
        Seq::empty()
    } else if reference_at(t, n - 1) {
        references_before(t, n - 1).push(t.subrange(n - 1, n + 13))
    } else {
        references_before(t, n - 1)
    }
}

/// `s` with every element that already occurred earlier removed.
pub open spec fn first_occurrences<A>(s: Seq<A>) -> Seq<A>
    decreases s.len(),
{
    if s.len() == 0 {
        s
    } else {
        let d = first_occurrences(s.drop_last());
        if d.contains(s.last()) {
            d
        } else {
            d.push(s.last())
        }
    }
}

/// The distinct task identifiers referenced in `t`, in order of first reference.
pub open spec fn task_ids_in(t: Seq<char>) -> Seq<Seq<char>> {
    first_occurrences(references_before(t, t.len() as int))
}

/// Each element of `s` stands once in `first_occurrences(s)`, which holds nothing else.
pub proof fn lemma_first_occurrences<A>(s: Seq<A>)
    ensures
        forall|i: int, j: int|
            0 <= i < j < first_occurrences(s).len() ==> first_occurrences(s)[i]
                != first_occurrences(s)[j],
        forall|x: A| s.contains(x) <==> first_occurrences(s).contains(x),
    decreases s.len(),
{
    if s.len() > 0 {
        let p = s.drop_last();
        let l = s.last();
        let d = first_occurrences(p);
        let r = first_occurrences(s);
        lemma_first_occurrences(p);
        assert(s =~= p.push(l));
        assert forall|x: A| s.contains(x) <==> (p.contains(x) || x == l) by {
            if s.contains(x) {
                let k = choose|k: int| 0 <= k < s.len() && s[k] == x;
                if k < p.len() {
                    assert(p[k] == x);
                }
            }
            if p.contains(x) {
                let k = choose|k: int| 0 <= k < p.len() && p[k] == x;
                assert(s[k] == x);
            }
            if x == l {
                assert(s[s.len() - 1] == x);
            }
        }
        assert forall|x: A| r.contains(x) <==> (d.contains(x) || x == l) by {
            if d.contains(l) {
            } else {
                assert(r == d.push(l));
                if r.contains(x) {
                    let k = choose|k: int| 0 <= k < r.len() && r[k] == x;
                    if k < d.len() {
                        assert(d[k] == x);
                    }
                }
                if d.contains(x) {
                    let k = choose|k: int| 0 <= k < d.len() && d[k] == x;
                    assert(r[k] == x);
                }
                if x == l {
                    assert(r[d.len() as int] == x);
                }
            }
        }
        if !d.contains(l) {
            assert forall|i: int, j: int| 0 <= i < j < r.len() implies r[i] != r[j] by {
                if j == d.len() {
                    assert(r[i] == d[i]);
                }
            }
        }
    }
}

/// The identifiers found in a text are distinct, and they are exactly the identifiers
/// of its references.
pub proof fn lemma_task_ids_distinct(t: Seq<char>)
    ensures
        forall|i: int, j: int|
            0 <= i < j < task_ids_in(t).len() ==> task_ids_in(t)[i] != task_ids_in(t)[j],
        forall|x: Seq<char>|
            references_before(t, t.len() as int).contains(x) <==> task_ids_in(t).contains(x),
{
    lemma_first_occurrences(references_before(t, t.len() as int));
}

fn digits_at_exec(t: &Vec<char>, i: usize) -> (r: bool)
    ensures
        r == digits_at(t@, i as int),
{
    if i > t.len() || t.len() - i < ID_LEN {
        return false;
    }
    let mut k: usize = 0;
    while k < ID_LEN
        invariant
            k <= 14,
            i + 14 <= t.len(),
            forall|j: int| i <= j < i + k ==> is_digit(#[trigger] t@[j]),
        decreases 14 - k,
    {
        let c = t[i + k];
        if !('0' <= c && c <= '9') {
            return false;
        }
        k += 1;
    }
    true
}

fn reference_at_exec(t: &Vec<char>, i: usize) -> (r: bool)
    ensures
        r == reference_at(t@, i as int),
{
    if !digits_at_exec(t, i) {
        return false;
    }
    if i > 0 {
        let c = t[i - 1];
        if '0' <= c && c <= '9' {
            return false;
        }
    }
    let n = t.len();
    assert(i + 14 <= n);
    if i + ID_LEN < n {
        let c = t[i + ID_LEN];
        if '0' <= c && c <= '9' {
            return false;
        }
    }
    true
}

fn contains_text(v: &Vec<String>, s: &String) -> (r: bool)
    ensures
        r == views_of(v@).contains(s@),
{
    let mut j: usize = 0;
    while j < v.len()
        invariant
            j <= v.len(),
            forall|k: int| 0 <= k < j ==> v@[k]@ != s@,
        decreases v.len() - j,
    {
        if v[j] == *s {
            assert(views_of(v@)[j as int] == s@);
            return true;
        }
        j += 1;
    }
    assert forall|k: int| 0 <= k < views_of(v@).len() implies views_of(v@)[k] != s@ by {
        assert(v@[k]@ != s@);
    }
    false
}

/// The distinct task identifiers referenced in the characters `t`.
pub fn task_ids_in_chars(t: &Vec<char>) -> (ids: Vec<String>)
    ensures
        views_of(ids@) == task_ids_in(t@),
{
    let mut ids: Vec<String> = Vec::new();
    let mut i: usize = 0;
    while i < t.len()
        invariant
            i <= t.len(),
            views_of(ids@) == first_occurrences(references_before(t@, i as int)),
        decreases t.len() - i,
    {
        let ghost before = references_before(t@, i as int);
        if reference_at_exec(t, i) {
            let id = string_of(t, i, i + ID_LEN);
            let ghost refs = before.push(id@);
            assert(references_before(t@, i + 1) == refs);
            assert(refs.drop_last() =~= before);
            if !contains_text(&ids, &id) {
                ids.push(id);
                assert(views_of(ids@) =~= first_occurrences(before).push(id@));
            }
        }
        i += 1;
    }
    ids
}

/// Extracts the distinct task identifiers referenced in `message`: runs of exactly
/// fourteen decimal digits, whatever marker stands before them, in order of first
/// reference.
pub fn extract_task_ids(message: &str) -> (ids: Vec<String>)
    ensures
        views_of(ids@) == task_ids_in(message@),
{
    let t = chars_of(message);
    task_ids_in_chars(&t)
}

// ---------------------------------------------------------------------------
// Status keywords
// ---------------------------------------------------------------------------

/// An ASCII letter, digit or underscore.
pub open spec fn is_word_char(c: char) -> bool {
    ('a' <= c && c <= 'z') || ('A' <= c && c <= 'Z') || ('0' <= c && c <= '9') || c == '_'
}

/// The characters in `t[a..b]` are all white space.
pub open spec fn spaces_between(t: Seq<char>, a: int, b: int) -> bool {
    0 <= a <= b <= t.len() && forall|k: int| a <= k < b ==> is_space(#[trigger] t[k])
}

/// At position `i` of `t` stands the word `w` (not preceded by a word character),
/// then white space, `#` and fourteen digits.
pub open spec fn closing_ref_at(t: Seq<char>, w: Seq<char>, i: int) -> bool {
    &&& (i == 0 || (0 < i <= t.len() && !is_word_char(t[i - 1])))
    &&& occurs_at(t, w, i)
    &&& exists|j: int|
        #![trigger t[j]]
        i + w.len() < j && spaces_between(t, i + w.len(), j) && t[j] == '#' && reference_at(t, j + 1)
}

pub open spec fn closing_ref(t: Seq<char>, w: Seq<char>) -> bool {
    exists|i: int| closing_ref_at(t, w, i)
}

/// The keyword of the done-like category found in `t`, if any.
pub open spec fn done_keyword(t: Seq<char>) -> Option<Seq<char>> {
    if occurs_in(t, "[done]"@) {
        Some("done"@)
    } else if occurs_in(t, "[complete]"@) || occurs_in(t, "[completed]"@) {
        Some("complete"@)
    } else if occurs_in(t, "[finished]"@) {
        Some("finished"@)
    } else if closing_ref(t, "closes"@) {
        Some("closes"@)
    } else if closing_ref(t, "fixes"@) {
        Some("fixes"@)
    } else {
        None
    }
}

/// The keyword of the testing-like category found in `t`, if any.
pub open spec fn testing_keyword(t: Seq<char>) -> Option<Seq<char>> {
    if occurs_in(t, "[testing]"@) {
        Some("testing"@)
    } else if occurs_in(t, "[review]"@) {
        Some("review"@)
    } else if occurs_in(t, "[ready]"@) {
        Some("ready"@)
    } else {
        None
    }
}

/// The keyword of the in-progress-like category found in `t`, if any.
pub open spec fn progress_keyword(t: Seq<char>) -> Option<Seq<char>> {
    if occurs_in(t, "[wip]"@) {
        Some("wip"@)
    } else if occurs_in(t, "[in-progress]"@) {
        Some("in-progress"@)
    } else if occurs_in(t, "[started]"@) {
        Some("started"@)
    } else {
        None
    }
}

pub open spec fn keyword_entry(k: Option<Seq<char>>, target: Seq<char>) -> Seq<
    (Seq<char>, Seq<char>),
> {
    match k {
        Some(w) => seq![(w, target)],
        None => Seq::empty(),
    }
}

/// The status keywords of the (already lowercased) text `t`: one per category found,
/// in the order done, testing, in-progress.
pub open spec fn keywords_in(t: Seq<char>) -> Seq<(Seq<char>, Seq<char>)> {
    keyword_entry(done_keyword(t), "done"@) + keyword_entry(testing_keyword(t), "testing"@)
        + keyword_entry(progress_keyword(t), "in-progress"@)
}

proof fn lemma_keyword_entry(k: Option<Seq<char>>, target: Seq<char>)
    ensures
        keyword_entry(k, target).len() <= 1,
        forall|i: int|
            0 <= i < keyword_entry(k, target).len() ==> (#[trigger] keyword_entry(k, target)[i]).1
                == target,
{
}

/// A text yields at most one keyword per category, listed in the category order done,
/// testing, in-progress.
pub proof fn lemma_keywords_by_category(t: Seq<char>)
    ensures
        keywords_in(t).len() <= 3,
        forall|i: int, j: int|
            0 <= i < j < keywords_in(t).len() ==> category_rank(keywords_in(t)[i].1)
                < category_rank(keywords_in(t)[j].1),
{
    reveal_strlit("done");
    reveal_strlit("testing");
    reveal_strlit("in-progress");
    assert("testing"@ != "done"@) by {
        assert("testing"@[0] != "done"@[0]);
    }
    assert("in-progress"@ != "done"@) by {
        assert("in-progress"@[0] != "done"@[0]);
    }
    assert("in-progress"@ != "testing"@) by {
        assert("in-progress"@[0] != "testing"@[0]);
    }
    let d = keyword_entry(done_keyword(t), "done"@);
    let e = keyword_entry(testing_keyword(t), "testing"@);
    let f = keyword_entry(progress_keyword(t), "in-progress"@);
    lemma_keyword_entry(done_keyword(t), "done"@);
    lemma_keyword_entry(testing_keyword(t), "testing"@);
    lemma_keyword_entry(progress_keyword(t), "in-progress"@);
    let k = keywords_in(t);
    assert(k == d + e + f);
    assert forall|i: int| 0 <= i < k.len() implies category_rank(#[trigger] k[i].1) == (if i
        < d.len() {
        0int
    } else if i < d.len() + e.len() {
        1int
    } else {
        2int
    }) by {
        if i < d.len() {
            assert(k[i] == d[i]);
            assert(d[i].1 == "done"@);
        } else if i < d.len() + e.len() {
            assert(k[i] == e[i - d.len()]);
            assert(e[i - d.len()].1 == "testing"@);
        } else {
            assert(k[i] == f[i - d.len() - e.len()]);
            assert(f[i - d.len() - e.len()].1 == "in-progress"@);
        }
    }
}

/// The place of a target status in the category order: done, testing, in-progress.
pub open spec fn category_rank(status: Seq<char>) -> int {
    if status == "done"@ {
        0
    } else if status == "testing"@ {
        1
    } else {
        2
    }
}

pub open spec fn text_option_view(o: Option<String>) -> Option<Seq<char>> {
    match o {
        Some(s) => Some(s@),
        None => None,
    }
}

fn has(t: &Vec<char>, pattern: &str) -> (r: bool)
    ensures
        r == occurs_in(t@, pattern@),
{
    let p = chars_of(pattern);
    occurs(t, &p)
}

fn space_run_end(t: &Vec<char>, a: usize) -> (k: usize)
    requires
        a <= t.len(),
    ensures
        spaces_between(t@, a as int, k as int),
        k == t.len() || !is_space(t@[k as int]),
{
    let mut k = a;
    while k < t.len() && space_char(t[k])
        invariant
            a <= k <= t.len(),
            spaces_between(t@, a as int, k as int),
        decreases t.len() - k,
    {
        k += 1;
    }
    k
}

fn closing_ref_at_exec(t: &Vec<char>, w: &Vec<char>, i: usize) -> (r: bool)
    ensures
        r == closing_ref_at(t@, w@, i as int),
{
    if i > t.len() {
        return false;
    }
    if i > 0 {
        let c = t[i - 1];
        if ('a' <= c && c <= 'z') || ('A' <= c && c <= 'Z') || ('0' <= c && c <= '9') || c == '_' {
            return false;
        }
    }
    if !matches_at(t, w, i) {
        return false;
    }
    let a = i + w.len();
    let k = space_run_end(t, a);
    let found = a < k && k < t.len() && t[k] == '#' && reference_at_exec(t, k + 1);
    proof {
        if found {
            assert(t@[k as int] == '#');
        } else {
            assert forall|j: int|
                !(i + w@.len() < j && spaces_between(t@, i + w@.len(), j) && #[trigger] t@[j] == '#'
                    && reference_at(t@, j + 1)) by {
                if i + w@.len() < j && spaces_between(t@, i + w@.len(), j) && t@[j] == '#'
                    && reference_at(t@, j + 1) {
                    if j < k {
                        assert(is_space(t@[j]));
                    } else if j > k {
                        assert(is_space(t@[k as int]));
                    }
                }
            }
        }
    }
    found
}

fn has_closing_ref(t: &Vec<char>, word: &str) -> (r: bool)
    ensures
        r == closing_ref(t@, word@),
{
    let w = chars_of(word);
    let mut i: usize = 0;
    while i <= t.len()
        invariant
            i <= t.len() + 1,
            w@ == word@,
            forall|j: int| 0 <= j < i ==> !closing_ref_at(t@, w@, j),
        decreases t.len() + 1 - i,
    {
        if closing_ref_at_exec(t, &w, i) {
            return true;
        }
        if i == t.len() {
            assert forall|j: int| !closing_ref_at(t@, w@, j) by {
                if j > t.len() {
                    assert(!occurs_at(t@, w@, j));
                }
            }
            return false;
        }
        i += 1;
    }
    false
}

fn find_done_keyword(t: &Vec<char>) -> (r: Option<String>)
    ensures
        text_option_view(r) == done_keyword(t@),
{
    if has(t, "[done]") {
        Some("done".to_owned())
    } else if has(t, "[complete]") || has(t, "[completed]") {
        Some("complete".to_owned())
    } else if has(t, "[finished]") {
        Some("finished".to_owned())
    } else if has_closing_ref(t, "closes") {
        Some("closes".to_owned())
    } else if has_closing_ref(t, "fixes") {
        Some("fixes".to_owned())
    } else {
        None
    }
}

fn find_testing_keyword(t: &Vec<char>) -> (r: Option<String>)
    ensures
        text_option_view(r) == testing_keyword(t@),
{
    if has(t, "[testing]") {
        Some("testing".to_owned())
    } else if has(t, "[review]") {
        Some("review".to_owned())
    } else if has(t, "[ready]") {
        Some("ready".to_owned())
    } else {
        None
    }
}

fn find_progress_keyword(t: &Vec<char>) -> (r: Option<String>)
    ensures
        text_option_view(r) == progress_keyword(t@),
{
    if has(t, "[wip]") {
        Some("wip".to_owned())
    } else if has(t, "[in-progress]") {
        Some("in-progress".to_owned())
    } else if has(t, "[started]") {
        Some("started".to_owned())
    } else {
        None
    }
}

fn push_keyword(out: &mut Vec<StatusKeyword>, found: Option<String>, target: &str)
    ensures
        keyword_views(final(out)@) == keyword_views(old(out)@) + keyword_entry(
            text_option_view(found),
            target@,
        ),
{
    match found {
        Some(keyword) => {
            let ghost before = out@;
            out.push(StatusKeyword { keyword, target_status: target.to_owned() });
            assert(keyword_views(out@) =~= keyword_views(before) + keyword_entry(
                text_option_view(found),
                target@,
            ));
        },
        None => {
            assert(keyword_views(out@) =~= keyword_views(out@) + keyword_entry(
                text_option_view(found),
                target@,
            ));
        },
    }
}

/// The status keywords of a message that is already lowercased.
pub fn status_keywords_in_lowercase(lowered: &str) -> (r: Vec<StatusKeyword>)
    ensures
        keyword_views(r@) == keywords_in(lowered@),
{
    let t = chars_of(lowered);
    let mut out: Vec<StatusKeyword> = Vec::new();
    push_keyword(&mut out, find_done_keyword(&t), "done");
    push_keyword(&mut out, find_testing_keyword(&t), "testing");
    push_keyword(&mut out, find_progress_keyword(&t), "in-progress");
    assert(keyword_views(out@) =~= keywords_in(lowered@));
    out
}

/// What `str::to_lowercase` makes of a text.
pub uninterp spec fn lowercase_of(s: Seq<char>) -> Seq<char>;

/// Relies on `str::to_lowercase`: the result depends on the characters alone, and on
/// ASCII text it is the Unicode lowercase mapping of ASCII: `A` to `Z` become `a` to
/// `z`, every other character stays.
#[verifier::external_body]
fn lowercase(s: &str) -> (r: String)
    ensures
        r@ == lowercase_of(s@),
        is_ascii_text(s@) ==> r@ == s@.map_values(|c: char| ascii_lower(c)),
{
    s.to_lowercase()
}

/// Extracts the status keywords of `message`, matched without regard to case.
pub fn extract_status_keywords(message: &str) -> (r: Vec<StatusKeyword>)
    ensures
        keyword_views(r@) == keywords_in(lowercase_of(message@)),
        is_ascii_text(message@) ==> keyword_views(r@) == keywords_in(
            message@.map_values(|c: char| ascii_lower(c)),
        ),
{
    let lowered = lowercase(message);
    status_keywords_in_lowercase(lowered.as_str())
}

/// Parses a commit message into the task identifiers it references and the status
/// keywords it holds.
pub fn parse_commit_message(message: &str) -> (info: CommitInfo)
    ensures
        views_of(info.task_ids@) == task_ids_in(message@),
        keyword_views(info.status_keywords@) == keywords_in(lowercase_of(message@)),
        is_ascii_text(message@) ==> keyword_views(info.status_keywords@) == keywords_in(
            message@.map_values(|c: char| ascii_lower(c)),
        ),
{
    CommitInfo { task_ids: extract_task_ids(message), status_keywords: extract_status_keywords(message) }
}

impl CommitInfo {
    /// An empty result.
    pub fn new() -> (r: Self)
        ensures
            r.task_ids@.len() == 0,
            r.status_keywords@.len() == 0,
    {
        CommitInfo { task_ids: Vec::new(), status_keywords: Vec::new() }
    }

    pub fn has_task_ids(&self) -> (r: bool)
        ensures
            r == (self.task_ids@.len() > 0),
    {
        self.task_ids.len() > 0
    }

    pub fn has_status_keywords(&self) -> (r: bool)
        ensures
            r == (self.status_keywords@.len() > 0),
    {
        self.status_keywords.len() > 0
    }

    pub fn first_task_id(&self) -> (r: Option<&str>)
        ensures
            self.task_ids@.len() == 0 ==> r.is_none(),
            self.task_ids@.len() > 0 ==> r.is_some() && r.unwrap()@ == self.task_ids@[0]@,
    {
        if self.task_ids.len() > 0 {
            Some(self.task_ids[0].as_str())
        } else {
            None
        }
    }

    pub fn first_status_keyword(&self) -> (r: Option<&StatusKeyword>)
        ensures
            self.status_keywords@.len() == 0 ==> r.is_none(),
            self.status_keywords@.len() > 0 ==> r == Some(&self.status_keywords@[0]),
    {
        if self.status_keywords.len() > 0 {
            Some(&self.status_keywords[0])
        } else {
            None
        }
    }
}

impl Default for CommitInfo {
    fn default() -> (r: Self)
        ensures
            r.task_ids@.len() == 0,
            r.status_keywords@.len() == 0,
    {
        CommitInfo::new()
    }
}

} // verus!
