//! The framing of a task file: a header block between two `---` lines, then the body.
use crate::errors::TaskError;
use crate::task::Task;
use crate::text::{chars_of, is_space, matches_at, occurs_at, space_char, string_of};
use vstd::prelude::*;

verus! {

pub open spec fn delimiter() -> Seq<char> {
    seq!['-', '-', '-']
}

/// A delimiter line starts at `i`: `---` alone on its line.
pub open spec fn delimiter_line_at(t: Seq<char>, i: int) -> bool {
    &&& occurs_at(t, delimiter(), i)
    &&& (i == 0 || t[i - 1] == '\n')
    &&& (i + 3 == t.len() || t[i + 3] == '\n')
}

/// `i` is the first delimiter line at or after `from`.
pub open spec fn first_delimiter_from(t: Seq<char>, from: int, i: int) -> bool {
    &&& from <= i
    &&& delimiter_line_at(t, i)
    &&& forall|j: int| from <= j < i ==> !delimiter_line_at(t, j)
}

/// The first two delimiter lines of `t` start at `i` and `j`.
pub open spec fn delimiters_at(t: Seq<char>, i: int, j: int) -> bool {
    first_delimiter_from(t, 0, i) && first_delimiter_from(t, i + 4, j)
}

/// The text has at least two delimiter lines.
pub open spec fn is_framed(t: Seq<char>) -> bool {
    exists|i: int, j: int| delimiters_at(t, i, j)
}

/// What follows the line of the delimiter that starts at `j`.
pub open spec fn after_line(t: Seq<char>, j: int) -> Seq<char> {
    if j + 4 <= t.len() {
        t.subrange(j + 4, t.len() as int)
    } else {
        Seq::empty()
    }
}

// ---------------------------------------------------------------------------
// Dropping blank lines at both ends
// ---------------------------------------------------------------------------

/// `p` is the first character of `s` that is not white space.
pub open spec fn first_content(s: Seq<char>, p: int) -> bool {
    0 <= p < s.len() && !is_space(s[p]) && forall|k: int| 0 <= k < p ==> is_space(s[k])
}

/// `q` is the last character of `s` that is not white space.
pub open spec fn last_content(s: Seq<char>, q: int) -> bool {
    0 <= q < s.len() && !is_space(s[q]) && forall|k: int| q < k < s.len() ==> is_space(s[k])
}

/// `a` starts the line that holds position `p`.
pub open spec fn line_start(s: Seq<char>, p: int, a: int) -> bool {
    0 <= a <= p && (a == 0 || s[a - 1] == '\n') && forall|k: int| a <= k < p ==> s[k] != '\n'
}

/// `b` ends the line that holds position `q`: its line break, or the end of `s`.
pub open spec fn line_end(s: Seq<char>, q: int, b: int) -> bool {
    q < b <= s.len() && (b == s.len() || s[b] == '\n') && forall|k: int| q < k < b ==> s[k] != '\n'
}

/// `s` without its leading and trailing blank (white-space-only) lines: from the start
/// of the first line with content to the end of the last one.
pub open spec fn strip_blank_lines(s: Seq<char>) -> Seq<char> {
    if exists|p: int| first_content(s, p) {
        let p = choose|p: int| first_content(s, p);
        let q = choose|q: int| last_content(s, q);
        let a = choose|a: int| line_start(s, p, a);
        let b = choose|b: int| line_end(s, q, b);
        s.subrange(a, b)
    } else {
        Seq::empty()
    }
}

proof fn lemma_unique_bounds(s: Seq<char>, p: int, q: int, a: int, b: int)
    requires
        first_content(s, p),
        last_content(s, q),
        line_start(s, p, a),
        line_end(s, q, b),
    ensures
        strip_blank_lines(s) == s.subrange(a, b),
{
    let p2 = choose|p: int| first_content(s, p);
    let q2 = choose|q: int| last_content(s, q);
    if p2 < p {
        assert(is_space(s[p2]));
    } else if p < p2 {
        assert(is_space(s[p]));
    }
    if q2 < q {
        assert(is_space(s[q]));
    } else if q < q2 {
        assert(is_space(s[q2]));
    }
    assert(line_start(s, p, a));
    let a2 = choose|a: int| line_start(s, p, a);
    if a2 < a {
        assert(s[a - 1] != '\n');
    } else if a < a2 {
        assert(s[a2 - 1] != '\n');
    }
    assert(line_end(s, q, b));
    let b2 = choose|b: int| line_end(s, q, b);
    if b2 < b {
        assert(s[b2] != '\n');
    } else if b < b2 {
        assert(s[b] != '\n');
    }
}

proof fn lemma_last_content_exists(s: Seq<char>, p: int)
    requires
        0 <= p < s.len(),
        !is_space(s[p]),
    ensures
        exists|q: int| last_content(s, q),
    decreases s.len() - p,
{
    if forall|k: int| p < k < s.len() ==> is_space(s[k]) {
        assert(last_content(s, p));
    } else {
        let k = choose|k: int| p < k < s.len() && !is_space(s[k]);
        lemma_last_content_exists(s, k);
    }
}

proof fn lemma_line_start_exists(s: Seq<char>, p: int)
    requires
        0 <= p <= s.len(),
    ensures
        exists|a: int| line_start(s, p, a),
    decreases p,
{
    if p == 0 || s[p - 1] == '\n' {
        assert(line_start(s, p, p));
    } else {
        let r = p - 1;
        lemma_line_start_exists(s, r);
        let a = choose|a: int| line_start(s, r, a);
        assert(line_start(s, p, a));
    }
}

proof fn lemma_line_end_exists(s: Seq<char>, q: int)
    requires
        0 <= q < s.len(),
    ensures
        exists|b: int| line_end(s, q, b),
    decreases s.len() - q,
{
    if q + 1 == s.len() || s[q + 1] == '\n' {
        assert(line_end(s, q, q + 1));
    } else {
        let r = q + 1;
        lemma_line_end_exists(s, r);
        let b = choose|b: int| line_end(s, r, b);
        assert(line_end(s, q, b));
    }
}

proof fn lemma_shifted_bounds(s: Seq<char>, p: int, q: int, a: int, b: int)
    requires
        first_content(s, p),
        last_content(s, q),
        line_start(s, p, a),
        line_end(s, q, b),
    ensures
        strip_blank_lines(seq!['\n'] + s) == s.subrange(a, b),
{
    let t = seq!['\n'] + s;
    assert forall|k: int| 0 <= k < s.len() implies t[k + 1] == s[k] by {}
    assert(first_content(t, p + 1));
    assert(last_content(t, q + 1));
    assert(line_start(t, p + 1, a + 1));
    assert(line_end(t, q + 1, b + 1));
    lemma_unique_bounds(t, p + 1, q + 1, a + 1, b + 1);
    assert(t.subrange(a + 1, b + 1) =~= s.subrange(a, b));
}

/// A line break in front changes nothing once blank lines are dropped.
proof fn lemma_strip_after_break(s: Seq<char>)
    ensures
        strip_blank_lines(seq!['\n'] + s) == strip_blank_lines(s),
{
    let t = seq!['\n'] + s;
    if exists|p: int| first_content(s, p) {
        let p = choose|p: int| first_content(s, p);
        lemma_last_content_exists(s, p);
        let q = choose|q: int| last_content(s, q);
        lemma_line_start_exists(s, p);
        let a = choose|a: int| line_start(s, p, a);
        lemma_line_end_exists(s, q);
        let b = choose|b: int| line_end(s, q, b);
        lemma_unique_bounds(s, p, q, a, b);
        lemma_shifted_bounds(s, p, q, a, b);
    } else {
        assert forall|p: int| !first_content(t, p) by {
            if first_content(t, p) {
                assert(p >= 1);
                assert forall|k: int| 0 <= k < p - 1 implies is_space(s[k]) by {
                    assert(t[k + 1] == s[k]);
                }
                assert(t[p] == s[p - 1]);
                assert(first_content(s, p - 1));
            }
        }
    }
}

fn strip_blank_lines_exec(s: &Vec<char>) -> (r: String)
    ensures
        r@ == strip_blank_lines(s@),
{
    let n = s.len();
    let mut p: usize = 0;
    while p < n && space_char(s[p])
        invariant
            p <= n == s@.len(),
            forall|k: int| 0 <= k < p ==> is_space(s@[k]),
        decreases n - p,
    {
        p += 1;
    }
    if p == n {
        assert forall|x: int| !first_content(s@, x) by {
            if 0 <= x < s@.len() {
                assert(is_space(s@[x]));
            }
        }
        return String::new();
    }
    let mut q: usize = n - 1;
    while space_char(s[q])
        invariant
            p <= q < n == s@.len(),
            !is_space(s@[p as int]),
            forall|k: int| q < k < n ==> is_space(s@[k]),
        decreases q,
    {
        q -= 1;
    }
    let mut a: usize = p;
    while a > 0 && s[a - 1] != '\n'
        invariant
            a <= p < n == s@.len(),
            forall|k: int| a <= k < p ==> s@[k] != '\n',
        decreases a,
    {
        a -= 1;
    }
    let mut b: usize = q + 1;
    while b < n && s[b] != '\n'
        invariant
            q < b <= n == s@.len(),
            forall|k: int| q < k < b ==> s@[k] != '\n',
        decreases n - b,
    {
        b += 1;
    }
    proof {
        assert(first_content(s@, p as int));
        assert(last_content(s@, q as int));
        assert(line_start(s@, p as int, a as int));
        assert(line_end(s@, q as int, b as int));
        lemma_unique_bounds(s@, p as int, q as int, a as int, b as int);
    }
    string_of(s, a, b)
}

// ---------------------------------------------------------------------------
// Splitting and framing
// ---------------------------------------------------------------------------

/// Header and body of a framed text: the lines between the first two delimiter lines,
/// and what follows the second without its leading and trailing blank lines.
pub open spec fn frontmatter_parts(t: Seq<char>) -> Option<(Seq<char>, Seq<char>)> {
    if is_framed(t) {
        let (i, j) = choose|i: int, j: int| delimiters_at(t, i, j);
        Some((t.subrange(i + 4, j), strip_blank_lines(after_line(t, j))))
    } else {
        None
    }
}

/// The text of a task file with the given header block and body.
pub open spec fn framed_text(header: Seq<char>, body: Seq<char>) -> Seq<char> {
    delimiter() + seq!['\n'] + header + delimiter() + seq!['\n', '\n'] + body
}

proof fn lemma_first_delimiter_unique(t: Seq<char>, from: int, i: int, k: int)
    requires
        first_delimiter_from(t, from, i),
        first_delimiter_from(t, from, k),
    ensures
        i == k,
{
    if i < k {
        assert(!delimiter_line_at(t, i));
    } else if k < i {
        assert(!delimiter_line_at(t, k));
    }
}

/// Framing a header block and a body, then splitting the text again, gives both back
/// unchanged, provided the header block holds no `---` line and is empty or ends with a
/// line break, and the body has no blank line at either end.
#[verifier::rlimit(40)]
pub proof fn lemma_frame_split_round_trip(header: Seq<char>, body: Seq<char>)
    requires
        forall|i: int| !delimiter_line_at(header, i),
        header.len() == 0 || header.last() == '\n',
        strip_blank_lines(body) == body,
    ensures
        frontmatter_parts(framed_text(header, body)) == Some((header, body)),
{
    let t = framed_text(header, body);
    let h = header.len() as int;
    let j = 4 + h;
    assert(t.len() == 9 + h + body.len());
    assert forall|k: int| 0 <= k < h implies t[4 + k] == header[k] by {}
    assert(t.subrange(0, 3) =~= delimiter());
    assert(t.subrange(j, j + 3) =~= delimiter());
    assert(delimiter_line_at(t, 0));
    assert(delimiter_line_at(t, j));
    assert forall|k: int| 4 <= k < j implies !delimiter_line_at(t, k) by {
        if delimiter_line_at(t, k) {
            assert(t.subrange(k, k + 3)[0] == '-');
            if k + 3 <= j {
                assert(header.subrange(k - 4, k - 1) =~= t.subrange(k, k + 3));
                if k > 4 {
                    assert(t[k - 1] == header[k - 5]);
                }
                if k + 3 < j {
                    assert(t[k + 3] == header[k - 1]);
                }
                assert(delimiter_line_at(header, k - 4));
            } else {
                assert(t[j - 1] == header.last());
                assert(t.subrange(k, k + 3)[j - 1 - k] == t[j - 1]);
            }
        }
    }
    assert(first_delimiter_from(t, 0, 0));
    assert(first_delimiter_from(t, 4, j));
    assert(delimiters_at(t, 0, j));
    let (a, b) = choose|a: int, b: int| delimiters_at(t, a, b);
    lemma_first_delimiter_unique(t, 0, a, 0);
    lemma_first_delimiter_unique(t, 4, b, j);
    assert(t.subrange(4, j) =~= header);
    assert(after_line(t, j) =~= seq!['\n'] + body);
    lemma_strip_after_break(body);
}

fn delimiter_line_exec(t: &Vec<char>, d: &Vec<char>, i: usize) -> (r: bool)
    requires
        d@ == delimiter(),
    ensures
        r == delimiter_line_at(t@, i as int),
{
    if !matches_at(t, d, i) {
        return false;
    }
    let n = t.len();
    assert(i + 3 <= n);
    (i == 0 || t[i - 1] == '\n') && (i + 3 == n || t[i + 3] == '\n')
}

fn find_delimiter(t: &Vec<char>, d: &Vec<char>, from: usize) -> (r: Option<usize>)
    requires
        d@ == delimiter(),
        from <= t.len(),
    ensures
        r matches Some(i) ==> first_delimiter_from(t@, from as int, i as int),
        r is None ==> forall|j: int| from <= j ==> !delimiter_line_at(t@, j),
{
    let mut i = from;
    while i < t.len()
        invariant
            from <= i <= t.len(),
            d@ == delimiter(),
            forall|j: int| from <= j < i ==> !delimiter_line_at(t@, j),
        decreases t.len() - i,
    {
        if delimiter_line_exec(t, d, i) {
            return Some(i);
        }
        i += 1;
    }
    assert forall|j: int| from <= j implies !delimiter_line_at(t@, j) by {
        if j >= i {
            assert(j + 3 > t@.len());
        }
    }
    None
}

/// The characters of `v` from position `lo` on.
fn chars_from(v: &Vec<char>, lo: usize) -> (r: Vec<char>)
    requires
        lo <= v.len(),
    ensures
        r@ == v@.subrange(lo as int, v@.len() as int),
{
    let mut r: Vec<char> = Vec::new();
    let mut i = lo;
    while i < v.len()
        invariant
            lo <= i <= v.len(),
            r@ == v@.subrange(lo as int, i as int),
        decreases v.len() - i,
    {
        r.push(v[i]);
        assert(r@ =~= v@.subrange(lo as int, i + 1));
        i += 1;
    }
    r
}

impl Task {
    /// Splits a task file into its header block (the lines between the first two `---`
    /// lines) and its body (what follows, without leading and trailing blank lines).
    /// Fails with `MalformedTask` when the text has fewer than two `---` lines.
    pub fn split_frontmatter(content: &str) -> (r: Result<(String, String), TaskError>)
        ensures
            r is Ok <==> is_framed(content@),
            r matches Ok((h, b)) ==> frontmatter_parts(content@) == Some((h@, b@)),
            r matches Err(e) ==> e is MalformedTask,
    {
        let t = chars_of(content);
        let d = chars_of("---");
        proof {
            reveal_strlit("---");
            assert(d@ =~= delimiter());
        }
        let err = TaskError::MalformedTask {
            detail: "Invalid task format: missing frontmatter delimiters".to_owned(),
        };
        let n = t.len();
        match find_delimiter(&t, &d, 0) {
            None => Err(err),
            Some(i) => {
                assert(i + 3 <= n);
                if i + 3 == n {
                    proof {
                        assert forall|a: int, b: int| !delimiters_at(t@, a, b) by {
                            if first_delimiter_from(t@, 0, a) {
                                lemma_first_delimiter_unique(t@, 0, a, i as int);
                            }
                        }
                    }
                    return Err(err);
                }
                let from: usize = i + 4;
                match find_delimiter(&t, &d, from) {
                    None => {
                        proof {
                            assert forall|a: int, b: int| !delimiters_at(t@, a, b) by {
                                if first_delimiter_from(t@, 0, a) {
                                    lemma_first_delimiter_unique(t@, 0, a, i as int);
                                }
                            }
                        }
                        Err(err)
                    },
                    Some(j) => {
                        let header = string_of(&t, from, j);
                        assert(j + 3 <= n);
                        let rest = if j + 3 < n {
                            chars_from(&t, j + 4)
                        } else {
                            Vec::new()
                        };
                        assert(rest@ =~= after_line(t@, j as int));
                        let body = strip_blank_lines_exec(&rest);
                        proof {
                            assert(delimiters_at(t@, i as int, j as int));
                            let (a, b) = choose|a: int, b: int| delimiters_at(t@, a, b);
                            lemma_first_delimiter_unique(t@, 0, a, i as int);
                            lemma_first_delimiter_unique(t@, i + 4, b, j as int);
                        }
                        Ok((header, body))
                    },
                }
            },
        }
    }

    /// The text of a task file: a `---` line, the header block (as written by the header
    /// serializer, ending in a line break), a `---` line, a blank line, then the body.
    pub fn frame(header: &str, body: &str) -> (r: String)
        ensures
            r@ == framed_text(header@, body@),
    {
        let mut s = "---\n".to_owned();
        s.append(header);
        s.append("---\n\n");
        s.append(body);
        proof {
            reveal_strlit("---\n");
            reveal_strlit("---\n\n");
            assert(s@ =~= framed_text(header@, body@));
        }
        s
    }
}

} // verus!
