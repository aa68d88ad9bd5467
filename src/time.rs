//! Times of day: the library's own value type, the parser that reads a
//! period's stored time, and the normalisation of user-entered times.
use vstd::prelude::*;
use chrono::Timelike;

use crate::text::{
    chars_of, digit_char_exec, digit_value, is_digit, lemma_digit_round_trip,
    lemma_parse_two_digits, lemma_split_after_colon, lemma_split_without_colon, lemma_trim_keeps,
    parse_u32, parse_u32_chars, split_colon, split_colon_chars, string_of, trim, trim_chars,
    two_digits,
};

verus! {

/// A wall-clock time of day, to the second.
#[derive(Clone, Copy, Debug, PartialEq, Eq, Structural)]
pub struct TimeOfDay {
    pub hour: u32,
    pub minute: u32,
    pub second: u32,
}

impl TimeOfDay {
    /// A valid time on a 24-hour clock.
    pub open spec fn wf(self) -> bool {
        self.hour < 24 && self.minute < 60 && self.second < 60
    }

    /// Seconds since midnight.
    pub open spec fn seconds(self) -> int {
        self.hour * 3600 + self.minute * 60 + self.second
    }

    /// Minutes since midnight, the granularity at which triggers are deduplicated.
    pub open spec fn minute_index(self) -> int {
        self.hour * 60 + self.minute
    }

    pub open spec fn hms(self) -> (u32, u32, u32) {
        (self.hour, self.minute, self.second)
    }

    pub fn new(hour: u32, minute: u32, second: u32) -> (r: Option<TimeOfDay>)
        ensures
            r is Some <==> hour < 24 && minute < 60 && second < 60,
            r matches Some(t) ==> t.hour == hour && t.minute == minute && t.second == second,
    {
        if hour < 24 && minute < 60 && second < 60 {
            Some(TimeOfDay { hour, minute, second })
        } else {
            None
        }
    }

    pub fn seconds_of_day(&self) -> (r: u64)
        ensures
            r == self.seconds(),
    {
        self.hour as u64 * 3600 + self.minute as u64 * 60 + self.second as u64
    }

    pub fn minute_of_day(&self) -> (r: u64)
        ensures
            r == self.minute_index(),
    {
        self.hour as u64 * 60 + self.minute as u64
    }

    /// Whether `self` comes strictly before `other` in the day.
    pub fn is_before(&self, other: &TimeOfDay) -> (r: bool)
        ensures
            r == (self.seconds() < other.seconds()),
    {
        self.seconds_of_day() < other.seconds_of_day()
    }

    /// Whether `self` and `other` name the same second of the day
    /// (hour, minute and second all equal).
    pub fn same_second(&self, other: &TimeOfDay) -> (r: bool)
        ensures
            r == (self.hms() == other.hms()),
    {
        self.hour == other.hour && self.minute == other.minute && self.second == other.second
    }
}

/// What `chrono::NaiveTime::parse_from_str(s, fmt)` yields, as hour, minute
/// and second, or `None` where it returns an error.
pub uninterp spec fn chrono_time(s: Seq<char>, fmt: Seq<char>) -> Option<(u32, u32, u32)>;

/// Relies on `chrono::NaiveTime::parse_from_str` to read `s` in the format
/// `fmt`, and on `Timelike`'s accessors, which return an hour in 0..=23 and a
/// minute and a second in 0..=59.
#[verifier::external_body]
fn parse_time_with(s: &str, fmt: &str) -> (r: Option<TimeOfDay>)
    ensures
        r matches Some(t) ==> t.wf(),
        r matches Some(t) ==> chrono_time(s@, fmt@) == Some(t.hms()),
        r is None ==> chrono_time(s@, fmt@) is None,
{
    match chrono::NaiveTime::parse_from_str(s, fmt) {
        Ok(t) => Some(TimeOfDay { hour: t.hour(), minute: t.minute(), second: t.second() }),
        Err(_) => None,
    }
}

/// The time of day that a stored period time denotes: read as `%H:%M:%S`,
/// or failing that as `%H:%M`.
pub open spec fn clock_of(s: Seq<char>) -> Option<(u32, u32, u32)> {
    match chrono_time(s, "%H:%M:%S"@) {
        Some(t) => Some(t),
        None => chrono_time(s, "%H:%M"@),
    }
}

/// Reads a stored period time (see [`clock_of`]).
pub fn parse_clock(s: &str) -> (r: Option<TimeOfDay>)
    ensures
        r matches Some(t) ==> t.wf(),
        r matches Some(t) ==> clock_of(s@) == Some(t.hms()),
        r is None ==> clock_of(s@) is None,
{
    match parse_time_with(s, "%H:%M:%S") {
        Some(t) => Some(t),
        None => parse_time_with(s, "%H:%M"),
    }
}

/// `HH:MM:SS` for the given hour, minute and second (each below 100).
pub open spec fn clock_text(h: nat, m: nat, s: nat) -> Seq<char> {
    two_digits(h) + seq![':'] + two_digits(m) + seq![':'] + two_digits(s)
}

/// The canonical form of a user-entered time: the input, trimmed, must be
/// `H:M` or `H:M:S` (each field trimmed, an optional `+`, decimal digits), with
/// hour at most 23 and minute and second at most 59; the result is zero-padded
/// `HH:MM:SS`, with seconds `00` where they were left out.
pub open spec fn normalized(input: Seq<char>) -> Option<Seq<char>> {
    let parts = split_colon(trim(input));
    if parts.len() == 2 {
        match (parse_u32(trim(parts[0])), parse_u32(trim(parts[1]))) {
            (Some(h), Some(m)) => if h <= 23 && m <= 59 {
                Some(clock_text(h as nat, m as nat, 0))
            } else {
                None
            },
            _ => None,
        }
    } else if parts.len() == 3 {
        match (parse_u32(trim(parts[0])), parse_u32(trim(parts[1])), parse_u32(trim(parts[2]))) {
            (Some(h), Some(m), Some(s)) => if h <= 23 && m <= 59 && s <= 59 {
                Some(clock_text(h as nat, m as nat, s as nat))
            } else {
                None
            },
            _ => None,
        }
    } else {
        None
    }
}

/// The two-digit field of `s` that starts at `i`, read as a number.
pub open spec fn field_at(s: Seq<char>, i: int) -> nat {
    digit_value(s[i]) * 10 + digit_value(s[i + 1])
}

/// `s` is already in canonical `HH:MM:SS` form.
pub open spec fn is_canonical_clock(s: Seq<char>) -> bool {
    &&& s.len() == 8
    &&& s[2] == ':' && s[5] == ':'
    &&& is_digit(s[0]) && is_digit(s[1]) && is_digit(s[3])
    &&& is_digit(s[4]) && is_digit(s[6]) && is_digit(s[7])
    &&& field_at(s, 0) <= 23 && field_at(s, 3) <= 59 && field_at(s, 6) <= 59
}

proof fn lemma_two_digits_of_field(s: Seq<char>, i: int)
    requires
        0 <= i,
        i + 1 < s.len(),
        is_digit(s[i]),
        is_digit(s[i + 1]),
    ensures
        two_digits(field_at(s, i)) == s.subrange(i, i + 2),
{
    let d0 = digit_value(s[i]);
    let d1 = digit_value(s[i + 1]);
    lemma_digit_round_trip(s[i]);
    lemma_digit_round_trip(s[i + 1]);
    assert((d0 * 10 + d1) / 10 == d0 && (d0 * 10 + d1) % 10 == d1) by (nonlinear_arith)
        requires
            d0 < 10,
            d1 < 10,
    ;
    assert(two_digits(field_at(s, i)) =~= s.subrange(i, i + 2));
}

/// Normalising a time that is already canonical `HH:MM:SS` returns it unchanged.
pub proof fn lemma_normalize_canonical(s: Seq<char>)
    requires
        is_canonical_clock(s),
    ensures
        normalized(s) == Some(s),
{
    lemma_trim_keeps(s);
    let a = s.subrange(0, 2);
    let b = s.subrange(3, 5);
    let c = s.subrange(6, 8);
    assert(s =~= a + seq![':'] + b + seq![':'] + c);
    assert forall|i: int| 0 <= i < a.len() implies #[trigger] a[i] != ':' by {}
    assert forall|i: int| 0 <= i < b.len() implies #[trigger] b[i] != ':' by {}
    assert forall|i: int| 0 <= i < c.len() implies #[trigger] c[i] != ':' by {}
    lemma_split_without_colon(a);
    lemma_split_after_colon(a, b);
    lemma_split_after_colon(a + seq![':'] + b, c);
    let parts = split_colon(trim(s));
    assert(parts =~= seq![a, b, c]);
    lemma_parse_two_digits(a);
    lemma_parse_two_digits(b);
    lemma_parse_two_digits(c);
    lemma_two_digits_of_field(s, 0);
    lemma_two_digits_of_field(s, 3);
    lemma_two_digits_of_field(s, 6);
    assert(clock_text(field_at(s, 0), field_at(s, 3), field_at(s, 6)) =~= s);
}

fn push_two_digits(out: &mut Vec<char>, n: u32)
    requires
        n < 100,
    ensures
        final(out)@ == old(out)@ + two_digits(n as nat),
{
    out.push(digit_char_exec(n / 10));
    out.push(digit_char_exec(n % 10));
    assert(final(out)@ =~= old(out)@ + two_digits(n as nat));
}

fn clock_string(h: u32, m: u32, s: u32) -> (r: String)
    requires
        h < 100,
        m < 100,
        s < 100,
    ensures
        r@ == clock_text(h as nat, m as nat, s as nat),
{
    let mut out: Vec<char> = Vec::new();
    push_two_digits(&mut out, h);
    out.push(':');
    push_two_digits(&mut out, m);
    out.push(':');
    push_two_digits(&mut out, s);
    assert(out@ =~= clock_text(h as nat, m as nat, s as nat));
    string_of(&out)
}

fn field_value(part: &Vec<char>) -> (r: Option<u32>)
    ensures
        r == parse_u32(trim(part@)),
{
    let t = trim_chars(part);
    parse_u32_chars(&t)
}

/// Normalises a user-entered time to `HH:MM:SS`; `None` where the input is not
/// a valid time (see [`normalized`]).
pub fn normalize_time_str(input: &str) -> (r: Option<String>)
    ensures
        r is Some <==> normalized(input@) is Some,
        r matches Some(s) ==> normalized(input@) == Some(s@),
{
    let cs = chars_of(input);
    let t = trim_chars(&cs);
    let parts = split_colon_chars(&t);
    if parts.len() == 2 {
        let h = field_value(&parts[0]);
        let m = field_value(&parts[1]);
        match (h, m) {
            (Some(h), Some(m)) => {
                if h <= 23 && m <= 59 {
                    Some(clock_string(h, m, 0))
                } else {
                    None
                }
            },
            _ => None,
        }
    } else if parts.len() == 3 {
        let h = field_value(&parts[0]);
        let m = field_value(&parts[1]);
        let s = field_value(&parts[2]);
        match (h, m, s) {
            (Some(h), Some(m), Some(s)) => {
                if h <= 23 && m <= 59 && s <= 59 {
                    Some(clock_string(h, m, s))
                } else {
                    None
                }
            },
            _ => None,
        }
    } else {
        None
    }
}

} // verus!
