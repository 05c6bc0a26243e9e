//! Tasks, their file names and the framing of a task file.
use crate::clock::{generate_id, id_text, LocalTime};
use crate::errors::TaskError;
use crate::text::{
    ascii_lower, chars_of, is_ascii_text, string_of, trim, trimmed_string_of, views_of,
};
use vstd::prelude::*;

verus! {

/// A task. Its status is where its file lies, never part of the header.
#[derive(Debug, Clone)]
pub struct Task {
    pub id: String,
    pub title: String,
    pub priority: Option<String>,
    pub blocks: Option<Vec<String>>,
    pub depends_on: Option<Vec<String>>,
    pub tags: Option<Vec<String>>,
    pub body: String,
    pub slug: String,
    pub status: String,
}

// ---------------------------------------------------------------------------
// Slugs and file names
// ---------------------------------------------------------------------------

/// What `slug::slugify` makes of a title.
pub uninterp spec fn slug_of(title: Seq<char>) -> Seq<char>;

pub open spec fn is_slug_char(c: char) -> bool {
    ('a' <= c && c <= 'z') || ('0' <= c && c <= '9') || c == '-'
}

/// Lowercase ASCII letters, digits and single hyphens, with no hyphen at either end.
pub open spec fn is_slug(s: Seq<char>) -> bool {
    &&& forall|i: int| 0 <= i < s.len() ==> is_slug_char(#[trigger] s[i])
    &&& forall|i: int| 0 <= i < s.len() - 1 ==> !(#[trigger] s[i] == '-' && s[i + 1] == '-')
    &&& s.len() > 0 ==> s[0] != '-' && s.last() != '-'
}

pub open spec fn is_ascii_alphanumeric(c: char) -> bool {
    ('a' <= c && c <= 'z') || ('A' <= c && c <= 'Z') || ('0' <= c && c <= '9')
}

/// Slugging the characters of `s` one by one: a letter or digit is appended lowercased,
/// any other character appends one `-` unless the slug so far is empty or ends in `-`.
pub open spec fn slug_scan(s: Seq<char>) -> Seq<char>
    decreases s.len(),
{
    if s.len() == 0 {
        Seq::empty()
    } else {
        let acc = slug_scan(s.drop_last());
        let c = s.last();
        if is_ascii_alphanumeric(c) {
            acc.push(ascii_lower(c))
        } else if acc.len() == 0 || acc.last() == '-' {
            acc
        } else {
            acc.push('-')
        }
    }
}

/// The slug of an ASCII title: lowercase, each run of other characters one `-`, no `-`
/// at either end.
pub open spec fn ascii_slug(s: Seq<char>) -> Seq<char> {
    let r = slug_scan(s);
    if r.len() > 0 && r.last() == '-' {
        r.drop_last()
    } else {
        r
    }
}

/// Relies on `slug::slugify`: the result depends on the title alone and, as its
/// documentation states, consists of a-z, 0-9 and '-', never holds two '-' in a row and
/// never starts or ends with '-'. On ASCII text its source (the ASCII branch of
/// `_slugify`) does what `ascii_slug` states.
#[verifier::external_body]
fn slugify(title: &str) -> (r: String)
    ensures
        r@ == slug_of(title@),
        is_slug(r@),
        is_ascii_text(title@) ==> r@ == ascii_slug(title@),
{
    slug::slugify(title)
}

/// The name of the file of task `id` with slug `slug`.
pub open spec fn file_name_text(id: Seq<char>, slug: Seq<char>) -> Seq<char> {
    id + seq!['-'] + slug + seq!['.', 'm', 'd']
}

/// The directory of the tasks in `status`.
pub open spec fn status_dir_text(status: Seq<char>) -> Seq<char> {
    ".repo-tasks/tasks/"@ + status
}

/// `k` is the position of the first `-` in `s`.
pub open spec fn first_hyphen(s: Seq<char>, k: int) -> bool {
    0 <= k < s.len() && s[k] == '-' && forall|m: int| 0 <= m < k ==> s[m] != '-'
}

/// The slug that a task file name carries: the name without its `.md` suffix, after the
/// first `-`.
pub open spec fn slug_in_file_name(name: Seq<char>) -> Option<Seq<char>> {
    if name.len() >= 3 && name.subrange(name.len() - 3, name.len() as int) == seq!['.', 'm', 'd'] {
        let stem = name.subrange(0, name.len() - 3);
        if exists|k: int| first_hyphen(stem, k) {
            let k = choose|k: int| first_hyphen(stem, k);
            Some(stem.subrange(k + 1, stem.len() as int))
        } else {
            None
        }
    } else {
        None
    }
}

/// The slug of `title`: lowercase, each run of other characters one hyphen, no hyphen at
/// either end.
pub fn generate_slug(title: &str) -> (r: String)
    ensures
        r@ == slug_of(title@),
        is_slug(r@),
        is_ascii_text(title@) ==> r@ == ascii_slug(title@),
{
    slugify(title)
}

/// The slug carried by a task file name, if it has one.
pub fn slug_from_file_name(name: &str) -> (r: Option<String>)
    ensures
        match r {
            Some(s) => slug_in_file_name(name@) == Some(s@),
            None => slug_in_file_name(name@) is None,
        },
{
    let t = chars_of(name);
    let n = t.len();
    if n < 3 || t[n - 3] != '.' || t[n - 2] != 'm' || t[n - 1] != 'd' {
        proof {
            if n >= 3 {
                let sfx = t@.subrange(n - 3, n as int);
                if sfx == seq!['.', 'm', 'd'] {
                    assert(sfx[0] == '.' && sfx[1] == 'm' && sfx[2] == 'd');
                }
            }
        }
        return None;
    }
    assert(t@.subrange(n - 3, n as int) =~= seq!['.', 'm', 'd']);
    let ghost stem = t@.subrange(0, n - 3);
    let mut k: usize = 0;
    while k < n - 3
        invariant
            n == t@.len(),
            t@ == name@,
            n >= 3,
            t@.subrange(n - 3, n as int) == seq!['.', 'm', 'd'],
            k <= n - 3,
            stem == t@.subrange(0, n - 3),
            forall|m: int| 0 <= m < k ==> stem[m] != '-',
        decreases n - 3 - k,
    {
        if t[k] == '-' {
            let r = string_of(&t, k + 1, n - 3);
            proof {
                assert(first_hyphen(stem, k as int));
                let j = choose|j: int| first_hyphen(stem, j);
                if j < k {
                    assert(stem[j] != '-');
                } else if j > k {
                    assert(stem[k as int] != '-');
                }
                assert(stem.subrange(k + 1, stem.len() as int) =~= t@.subrange(k + 1, n - 3));
                assert(name@.subrange(name@.len() - 3, name@.len() as int) == seq!['.', 'm', 'd']);
                assert(name@.subrange(0, name@.len() - 3) == stem);
                assert(exists|j: int| first_hyphen(stem, j));
                assert(slug_in_file_name(name@) == Some(r@));
            }
            return Some(r);
        }
        k += 1;
    }
    assert forall|j: int| !first_hyphen(stem, j) by {
        if 0 <= j < stem.len() {
            assert(stem[j] != '-');
        }
    }
    None
}

impl Task {
    /// A new task in `todo`, with an identifier from the current time, the slug of its
    /// title and an empty body.
    pub fn new(title: String, priority: String) -> (t: Task)
        ensures
            exists|lt: LocalTime| lt.wf() && t.id@ == id_text(lt),
            t.title == title,
            t.priority == Some(priority),
            t.blocks is None,
            t.depends_on is None,
            t.tags is None,
            t.body@ == Seq::<char>::empty(),
            t.slug@ == slug_of(title@),
            is_ascii_text(title@) ==> t.slug@ == ascii_slug(title@),
            t.status@ == "todo"@,
    {
        let id = generate_id();
        let slug = generate_slug(title.as_str());
        Task {
            id,
            title,
            priority: Some(priority),
            blocks: None,
            depends_on: None,
            tags: None,
            body: String::new(),
            slug,
            status: "todo".to_owned(),
        }
    }

    /// The identifier, as `Task::generate_id` gives it.
    pub fn generate_id() -> (r: String)
        ensures
            exists|lt: LocalTime| lt.wf() && r@ == id_text(lt),
    {
        generate_id()
    }

    /// The slug of `title`.
    pub fn generate_slug(title: &str) -> (r: String)
        ensures
            r@ == slug_of(title@),
            is_slug(r@),
            is_ascii_text(title@) ==> r@ == ascii_slug(title@),
    {
        generate_slug(title)
    }

    /// `ID-SLUG.md`.
    pub fn file_name(&self) -> (r: String)
        ensures
            r@ == file_name_text(self.id@, self.slug@),
    {
        let mut s = self.id.clone();
        s.append("-");
        s.append(self.slug.as_str());
        s.append(".md");
        proof {
            reveal_strlit("-");
            reveal_strlit(".md");
        }
        assert(s@ =~= file_name_text(self.id@, self.slug@));
        s
    }

    /// The path of the task's file in the directory of `status`:
    /// `.repo-tasks/tasks/STATUS/ID-SLUG.md`.
    pub fn file_path(&self, status: &str) -> (r: String)
        ensures
            r@ == status_dir_text(status@) + seq!['/'] + file_name_text(self.id@, self.slug@),
    {
        let mut s = ".repo-tasks/tasks/".to_owned();
        s.append(status);
        s.append("/");
        let name = self.file_name();
        s.append(name.as_str());
        proof {
            reveal_strlit("/");
        }
        assert(s@ =~= status_dir_text(status@) + seq!['/'] + file_name_text(self.id@, self.slug@));
        s
    }

    /// Takes status and slug from where the file lies: `status` is the name of its
    /// directory, the slug comes from the file name when it carries one.
    pub fn set_location(&mut self, status: String, file_name: &str)
        ensures
            final(self).status == status,
            final(self).slug@ == match slug_in_file_name(file_name@) {
                Some(s) => s,
                None => old(self).slug@,
            },
            final(self).id == old(self).id,
            final(self).title == old(self).title,
            final(self).priority == old(self).priority,
            final(self).blocks == old(self).blocks,
            final(self).depends_on == old(self).depends_on,
            final(self).tags == old(self).tags,
            final(self).body == old(self).body,
    {
        self.status = status;
        match slug_from_file_name(file_name) {
            Some(s) => {
                self.slug = s;
            },
            None => {},
        }
    }
}


// ---------------------------------------------------------------------------
// Input given when a task is created or edited
// ---------------------------------------------------------------------------

/// The comma-separated fields of `s`, empty ones included.
pub open spec fn comma_fields(s: Seq<char>) -> Seq<Seq<char>>
    decreases s.len(),
{
    if s.len() == 0 {
        seq![Seq::empty()]
    } else {
        let f = comma_fields(s.drop_last());
        if s.last() == ',' {
            f.push(Seq::empty())
        } else {
            f.update(f.len() - 1, f.last().push(s.last()))
        }
    }
}

/// The fields, trimmed, without the empty ones.
pub open spec fn nonempty_trimmed(fs: Seq<Seq<char>>) -> Seq<Seq<char>>
    decreases fs.len(),
{
    if fs.len() == 0 {
        Seq::empty()
    } else {
        let k = nonempty_trimmed(fs.drop_last());
        if trim(fs.last()).len() > 0 {
            k.push(trim(fs.last()))
        } else {
            k
        }
    }
}

/// The tags written in `text`: its comma-separated fields, trimmed, without empty ones.
pub open spec fn tags_in(text: Seq<char>) -> Seq<Seq<char>> {
    nonempty_trimmed(comma_fields(text))
}

proof fn lemma_comma_fields_nonempty(s: Seq<char>)
    ensures
        comma_fields(s).len() >= 1,
    decreases s.len(),
{
    if s.len() > 0 {
        lemma_comma_fields_nonempty(s.drop_last());
    }
}

/// Splits comma-separated tags, trimming each and dropping empty ones.
pub fn split_tags(text: &str) -> (r: Vec<String>)
    ensures
        views_of(r@) == tags_in(text@),
{
    let t = chars_of(text);
    let mut out: Vec<String> = Vec::new();
    let mut start: usize = 0;
    let mut i: usize = 0;
    proof {
        assert(t@.take(0) =~= Seq::<char>::empty());
    }
    while i < t.len()
        invariant
            start <= i <= t.len(),
            comma_fields(t@.take(i as int)).len() >= 1,
            comma_fields(t@.take(i as int)).last() == t@.subrange(start as int, i as int),
            views_of(out@) == nonempty_trimmed(comma_fields(t@.take(i as int)).drop_last()),
        decreases t.len() - i,
    {
        let ghost f = comma_fields(t@.take(i as int));
        proof {
            assert(t@.take(i + 1).drop_last() =~= t@.take(i as int));
            assert(t@.take(i + 1).last() == t@[i as int]);
        }
        if t[i] == ',' {
            let piece = trimmed_string_of(&t, start, i);
            let ghost before = out@;
            if !piece.as_str().is_empty() {
                out.push(piece);
                assert(views_of(out@) =~= views_of(before).push(piece@));
            }
            proof {
                let g = comma_fields(t@.take(i + 1));
                assert(g == f.push(Seq::empty()));
                assert(g.drop_last() =~= f);
            }
            start = i + 1;
        } else {
            proof {
                let g = comma_fields(t@.take(i + 1));
                assert(g.drop_last() =~= f.drop_last());
                assert(g.last() =~= t@.subrange(start as int, i + 1));
            }
        }
        i += 1;
    }
    let last = trimmed_string_of(&t, start, t.len());
    proof {
        assert(t@.take(t@.len() as int) =~= t@);
    }
    let ghost before = out@;
    if !last.as_str().is_empty() {
        out.push(last);
        assert(views_of(out@) =~= views_of(before).push(last@));
    }
    out
}


/// The title a task gets from `input`: trimmed; `EmptyTitle` when nothing is left.
pub fn checked_title(input: &str) -> (r: Result<String, TaskError>)
    ensures
        r is Ok <==> trim(input@).len() > 0,
        r matches Ok(t) ==> t@ == trim(input@),
        r matches Err(e) ==> e is EmptyTitle,
{
    let t = chars_of(input);
    let title = trimmed_string_of(&t, 0, t.len());
    proof {
        assert(t@.subrange(0, t@.len() as int) =~= input@);
    }
    if title.as_str().is_empty() {
        Err(TaskError::EmptyTitle)
    } else {
        Ok(title)
    }
}


/// The tags a new task gets from its tags argument: none without an argument or when
/// the argument holds no tag.
pub open spec fn tags_from_argument(tags: Option<Seq<char>>) -> Option<Seq<Seq<char>>> {
    match tags {
        Some(text) => if tags_in(text).len() > 0 {
            Some(tags_in(text))
        } else {
            None
        },
        None => None,
    }
}

impl Task {
    /// A new task in `todo` from what its creator gave: the title (trimmed; `EmptyTitle`
    /// when nothing is left), the priority, comma-separated tags and notes for the body.
    pub fn from_input(
        title: &str,
        priority: String,
        tags: Option<&str>,
        notes: Option<String>,
    ) -> (r: Result<Task, TaskError>)
        ensures
            r is Ok <==> trim(title@).len() > 0,
            r matches Err(e) ==> e is EmptyTitle,
            r matches Ok(t) ==> {
                &&& exists|lt: LocalTime| lt.wf() && t.id@ == id_text(lt)
                &&& t.title@ == trim(title@)
                &&& t.priority == Some(priority)
                &&& t.slug@ == slug_of(trim(title@))
                &&& t.status@ == "todo"@
                &&& t.blocks is None && t.depends_on is None
                &&& match tags_from_argument(
                    match tags {
                        Some(g) => Some(g@),
                        None => None,
                    },
                ) {
                    Some(v) => t.tags matches Some(ts) && views_of(ts@) == v,
                    None => t.tags is None,
                }
                &&& t.body@ == match notes {
                    Some(n) => n@,
                    None => Seq::<char>::empty(),
                }
            },
    {
        let title = match checked_title(title) {
            Ok(t) => t,
            Err(e) => {
                return Err(e);
            },
        };
        let mut task = Task::new(title, priority);
        match tags {
            Some(text) => {
                let v = split_tags(text);
                if v.len() > 0 {
                    task.tags = Some(v);
                }
            },
            None => {},
        }
        match notes {
            Some(n) => {
                task.body = n;
            },
            None => {},
        }
        Ok(task)
    }
}

} // verus!
