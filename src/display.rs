//! Text shown by the interface: countdowns, shortened paths, period states.
use vstd::prelude::*;

use crate::schedule::{fires_at, period_time, Period, PeriodKind};
use crate::text::{
    chars_of, contains, contains_chars, pad2, push_pad2, signed, slice_chars, string_of,
};
use crate::time::TimeOfDay;

verus! {

/// `HH:MM:SS` for a number of seconds, each field as `{:02}` writes it. Hours
/// are not capped at 24. Rust's `/` and `%` truncate toward zero, so for a
/// negative count every field carries the sign.
pub open spec fn countdown_text(d: int) -> Seq<char> {
    let a = if d < 0 { -d } else { d };
    pad2(signed(d < 0, a / 3600)) + seq![':'] + pad2(signed(d < 0, (a % 3600) / 60)) + seq![':']
        + pad2(signed(d < 0, a % 60))
}

pub fn format_countdown(diff_secs: i64) -> (r: String)
    ensures
        r@ == countdown_text(diff_secs as int),
{
    let negative = diff_secs < 0;
    let a: u64 = if negative {
        ((-(diff_secs + 1)) as u64) + 1
    } else {
        diff_secs as u64
    };
    let mut out: Vec<char> = Vec::new();
    push_pad2(&mut out, negative, a / 3600);
    out.push(':');
    push_pad2(&mut out, negative, (a % 3600) / 60);
    out.push(':');
    push_pad2(&mut out, negative, a % 60);
    assert(out@ =~= countdown_text(diff_secs as int));
    string_of(&out)
}

/// `path` when it has at most `max_chars` characters; otherwise `…` followed
/// by its last `max_chars` characters.
pub open spec fn shortened(path: Seq<char>, max_chars: nat) -> Seq<char> {
    if path.len() <= max_chars {
        path
    } else {
        seq!['…'] + path.subrange(path.len() - max_chars, path.len() as int)
    }
}

pub fn shorten_path(path: &str, max_chars: usize) -> (r: String)
    ensures
        r@ == shortened(path@, max_chars as nat),
{
    let chars = chars_of(path);
    if chars.len() <= max_chars {
        path.to_owned()
    } else {
        let mut out: Vec<char> = Vec::new();
        out.push('…');
        let keep = slice_chars(&chars, chars.len() - max_chars, chars.len());
        let mut i: usize = 0;
        while i < keep.len()
            invariant
                i <= keep.len(),
                out@ == seq!['…'] + keep@.subrange(0, i as int),
            decreases keep.len() - i,
        {
            out.push(keep[i]);
            i += 1;
            assert(out@ =~= seq!['…'] + keep@.subrange(0, i as int));
        }
        assert(keep@.subrange(0, keep.len() as int) =~= keep@);
        string_of(&out)
    }
}

/// The state label of a period at `now`: off, now, passed, or still to come.
pub open spec fn runtime_state(p: Period, now: TimeOfDay) -> Seq<char> {
    if !p.enabled {
        "停用"@
    } else if fires_at(p, now) {
        "当前"@
    } else if period_time(p) matches Some(t) && t.seconds() < now.seconds() {
        "已过"@
    } else {
        "未到"@
    }
}

pub fn period_runtime_state(period: &Period, now: &TimeOfDay) -> (r: &'static str)
    ensures
        r@ == runtime_state(*period, *now),
{
    if !period.enabled {
        return "停用";
    }
    if period.matches_now(now) {
        return "当前";
    }
    match period.naive_time() {
        Some(t) => {
            if t.is_before(now) {
                return "已过";
            }
        },
        None => {},
    }
    "未到"
}

/// How a status message is shown.
#[derive(Clone, Copy, Debug, PartialEq, Eq, Structural)]
pub enum StatusTone {
    /// A failure or an error.
    Danger,
    /// Reminders are paused.
    Warning,
    /// Anything else.
    Muted,
}

pub open spec fn status_tone_of(msg: Seq<char>) -> StatusTone {
    if contains(msg, "失败"@) || contains(msg, "错误"@) {
        StatusTone::Danger
    } else if contains(msg, "暂停"@) {
        StatusTone::Warning
    } else {
        StatusTone::Muted
    }
}

pub fn status_tone(msg: &str) -> (r: StatusTone)
    ensures
        r == status_tone_of(msg@),
{
    let cs = chars_of(msg);
    if contains_chars(&cs, &chars_of("失败")) || contains_chars(&cs, &chars_of("错误")) {
        StatusTone::Danger
    } else if contains_chars(&cs, &chars_of("暂停")) {
        StatusTone::Warning
    } else {
        StatusTone::Muted
    }
}

/// How a period's row is shown.
#[derive(Clone, Copy, Debug, PartialEq, Eq, Structural)]
pub enum RowTone {
    /// Disabled, or its time has passed.
    Past,
    Start,
    StartCurrent,
    End,
    EndCurrent,
}

pub open spec fn row_tone_of(p: Period, now: TimeOfDay) -> RowTone {
    let past = period_time(p) matches Some(t) && t.seconds() < now.seconds();
    if !p.enabled || past {
        RowTone::Past
    } else {
        match p.kind {
            PeriodKind::Start => if fires_at(p, now) {
                RowTone::StartCurrent
            } else {
                RowTone::Start
            },
            PeriodKind::End => if fires_at(p, now) {
                RowTone::EndCurrent
            } else {
                RowTone::End
            },
        }
    }
}

pub fn period_row_tone(period: &Period, now: &TimeOfDay) -> (r: RowTone)
    ensures
        r == row_tone_of(*period, *now),
{
    let past = match period.naive_time() {
        Some(t) => t.is_before(now),
        None => false,
    };
    if !period.enabled || past {
        return RowTone::Past;
    }
    let current = period.matches_now(now);
    match period.kind {
        PeriodKind::Start => if current {
            RowTone::StartCurrent
        } else {
            RowTone::Start
        },
        PeriodKind::End => if current {
            RowTone::EndCurrent
        } else {
            RowTone::End
        },
    }
}

} // verus!
