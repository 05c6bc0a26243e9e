//! Task identifiers: the local time, written as fourteen digits.
use chrono::{Datelike, Timelike};
use crate::text::push_char;
use vstd::prelude::*;

verus! {

/// A local date and time, as the calendar and clock fields that an identifier shows.
#[derive(Debug, Clone, Copy)]
pub struct LocalTime {
    pub year: i32,
    pub month: u32,
    pub day: u32,
    pub hour: u32,
    pub minute: u32,
    pub second: u32,
    /// Nanoseconds since the whole second; from one billion on, a leap second.
    pub nanosecond: u32,
}

impl LocalTime {
    pub open spec fn wf(self) -> bool {
        &&& 1 <= self.month <= 12
        &&& 1 <= self.day <= 31
        &&& self.hour <= 23
        &&& self.minute <= 59
        &&& self.second <= 59
        &&& self.nanosecond < 2_000_000_000
    }
}

/// Relies on `chrono::Local::now` and the `Datelike` / `Timelike` accessors, whose
/// documented ranges are: month 1 to 12, day 1 to 31, hour 0 to 23, minute 0 to 59,
/// second 0 to 59, nanosecond below two billion. Like `chrono` itself it panics on a
/// system clock set before 1970 or on time zone data it cannot use; it takes no input
/// that a precondition could rule out.
#[verifier::external_body]
fn local_now() -> (t: LocalTime)
    ensures
        t.wf(),
{
    let now = chrono::Local::now();
    LocalTime {
        year: now.year(),
        month: now.month(),
        day: now.day(),
        hour: now.hour(),
        minute: now.minute(),
        second: now.second(),
        nanosecond: now.nanosecond(),
    }
}

pub open spec fn digit_char(d: int) -> char {
    seq!['0', '1', '2', '3', '4', '5', '6', '7', '8', '9'][d]
}

/// The decimal digits of `n`, without leading zeros.
pub open spec fn decimal(n: nat) -> Seq<char>
    decreases n,
{
    if n < 10 {
        seq![digit_char(n as int)]
    } else {
        decimal(n / 10).push(digit_char((n % 10) as int))
    }
}

/// `s` with zeros in front up to `width` characters.
pub open spec fn zero_padded(s: Seq<char>, width: nat) -> Seq<char> {
    if s.len() >= width {
        s
    } else {
        Seq::new((width - s.len()) as nat, |i: int| '0') + s
    }
}

/// The year as `%Y` writes it: four digits within 0 to 9999, else a sign and at least
/// four digits.
pub open spec fn year_text(y: int) -> Seq<char> {
    if 0 <= y <= 9999 {
        zero_padded(decimal(y as nat), 4)
    } else if y < 0 {
        seq!['-'] + zero_padded(decimal((-y) as nat), 4)
    } else {
        seq!['+'] + zero_padded(decimal(y as nat), 4)
    }
}

pub open spec fn two_digits(n: int) -> Seq<char> {
    seq![digit_char(n / 10), digit_char(n % 10)]
}

/// The identifier of a task created at `t`: `%Y%m%d%H%M%S`, a leap second shown as 60.
pub open spec fn id_text(t: LocalTime) -> Seq<char> {
    year_text(t.year as int) + two_digits(t.month as int) + two_digits(t.day as int) + two_digits(
        t.hour as int,
    ) + two_digits(t.minute as int) + two_digits(
        t.second + (if t.nanosecond >= 1_000_000_000 {
            1int
        } else {
            0int
        }),
    )
}

pub open spec fn is_digit_text(s: Seq<char>) -> bool {
    forall|i: int| 0 <= i < s.len() ==> '0' <= #[trigger] s[i] && s[i] <= '9'
}

fn digit(d: u64) -> (c: char)
    requires
        d < 10,
    ensures
        c == digit_char(d as int),
{
    match d {
        0 => '0',
        1 => '1',
        2 => '2',
        3 => '3',
        4 => '4',
        5 => '5',
        6 => '6',
        7 => '7',
        8 => '8',
        _ => '9',
    }
}

pub(crate) fn push_decimal(out: &mut String, n: u64)
    ensures
        final(out)@ == old(out)@ + decimal(n as nat),
    decreases n,
{
    if n < 10 {
        push_char(out, digit(n));
        assert(final(out)@ =~= old(out)@ + decimal(n as nat)) by {
            assert(decimal(n as nat) == seq![digit_char(n as int)]);
        }
    } else {
        push_decimal(out, n / 10);
        push_char(out, digit(n % 10));
        assert(out@ =~= old(out)@ + decimal(n as nat));
    }
}

proof fn lemma_decimal_len(n: nat)
    ensures
        1 <= decimal(n).len(),
        n < 10 ==> decimal(n).len() == 1,
        10 <= n < 100 ==> decimal(n).len() == 2,
        100 <= n < 1000 ==> decimal(n).len() == 3,
        1000 <= n < 10000 ==> decimal(n).len() == 4,
        10000 <= n ==> decimal(n).len() >= 5,
    decreases n,
{
    if n >= 10 {
        lemma_decimal_len(n / 10);
    }
}

fn push_padded_decimal(out: &mut String, n: u64)
    ensures
        final(out)@ == old(out)@ + zero_padded(decimal(n as nat), 4),
{
    proof {
        lemma_decimal_len(n as nat);
    }
    let ghost start = out@;
    let zeros: usize = if n < 10 {
        3
    } else if n < 100 {
        2
    } else if n < 1000 {
        1
    } else {
        0
    };
    let mut k: usize = 0;
    while k < zeros
        invariant
            k <= zeros,
            out@ == start + Seq::new(k as nat, |i: int| '0'),
        decreases zeros - k,
    {
        push_char(out, '0');
        assert(out@ =~= start + Seq::new((k + 1) as nat, |i: int| '0'));
        k += 1;
    }
    push_decimal(out, n);
    proof {
        if zeros == 0 {
            assert(out@ =~= start + decimal(n as nat));
        } else {
            assert(out@ =~= start + zero_padded(decimal(n as nat), 4));
        }
    }
}

fn push_two_digits(out: &mut String, n: u32)
    requires
        n < 100,
    ensures
        final(out)@ == old(out)@ + two_digits(n as int),
{
    push_char(out, digit((n / 10) as u64));
    push_char(out, digit((n % 10) as u64));
    assert(out@ =~= old(out)@ + two_digits(n as int));
}

/// Writes the identifier of a task created at `t`.
pub fn format_id(t: &LocalTime) -> (r: String)
    requires
        t.wf(),
    ensures
        r@ == id_text(*t),
{
    let mut s = String::new();
    if 0 <= t.year && t.year <= 9999 {
        push_padded_decimal(&mut s, t.year as u64);
    } else if t.year < 0 {
        push_char(&mut s, '-');
        push_padded_decimal(&mut s, (-(t.year as i64)) as u64);
    } else {
        push_char(&mut s, '+');
        push_padded_decimal(&mut s, t.year as u64);
    }
    assert(s@ =~= year_text(t.year as int));
    push_two_digits(&mut s, t.month);
    push_two_digits(&mut s, t.day);
    push_two_digits(&mut s, t.hour);
    push_two_digits(&mut s, t.minute);
    let leap: u32 = if t.nanosecond >= 1_000_000_000 {
        1
    } else {
        0
    };
    push_two_digits(&mut s, t.second + leap);
    assert(s@ =~= id_text(*t));
    s
}

/// An identifier made at a year from 0 to 9999 is fourteen decimal digits.
pub proof fn lemma_id_is_fourteen_digits(t: LocalTime)
    requires
        t.wf(),
        0 <= t.year <= 9999,
    ensures
        id_text(t).len() == 14,
        is_digit_text(id_text(t)),
{
    lemma_decimal_len(t.year as nat);
    lemma_decimal_digits(t.year as nat);
    let y = year_text(t.year as int);
    assert(y.len() == 4);
    assert forall|i: int| 0 <= i < 4 implies '0' <= #[trigger] y[i] && y[i] <= '9' by {
        let d = decimal(t.year as nat);
        if i >= 4 - d.len() {
            assert(y[i] == d[i - (4 - d.len())]);
        }
    }
    let s = id_text(t);
    assert forall|i: int| 0 <= i < s.len() implies '0' <= #[trigger] s[i] && s[i] <= '9' by {
        if i < 4 {
            assert(s[i] == y[i]);
        }
    }
}

proof fn lemma_decimal_digits(n: nat)
    ensures
        is_digit_text(decimal(n)),
    decreases n,
{
    if n >= 10 {
        lemma_decimal_digits(n / 10);
    }
}

/// The identifier of a task created now: the local time as `%Y%m%d%H%M%S`. Two tasks
/// created within the same second get the same identifier.
pub fn generate_id() -> (r: String)
    ensures
        exists|t: LocalTime| t.wf() && r@ == id_text(t),
{
    let t = local_now();
    format_id(&t)
}

} // verus!
