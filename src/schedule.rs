//! The schedule model: periods, profiles, the configuration root, and the
//! queries and repairs on them.
use vstd::prelude::*;

use crate::text::{
    chars_of, lemma_lex_irreflexive, lemma_lex_le_transitive, lemma_lex_total, lemma_lex_transitive,
    lex_le, lex_less, lex_lt, string_of, trim, trim_chars,
};
use crate::time::{clock_of, normalize_time_str, normalized, parse_clock, TimeOfDay};

verus! {

broadcast use vstd::seq_lib::group_to_multiset_ensures;

/// Whether a period marks the start or the end of something.
#[derive(Clone, Copy, Debug, PartialEq, Eq, Structural)]
pub enum PeriodKind {
    Start,
    End,
}

pub open spec fn kind_label(k: PeriodKind) -> Seq<char> {
    match k {
        PeriodKind::Start => "开始"@,
        PeriodKind::End => "结束"@,
    }
}

/// The bundled sound that a kind plays unless configured otherwise.
pub open spec fn kind_default_sound(k: PeriodKind) -> BuiltinSound {
    match k {
        PeriodKind::Start => BuiltinSound::BellStart,
        PeriodKind::End => BuiltinSound::BellEnd,
    }
}

impl PeriodKind {
    pub fn label(&self) -> (r: &'static str)
        ensures
            r@ == kind_label(*self),
    {
        match self {
            PeriodKind::Start => "开始",
            PeriodKind::End => "结束",
        }
    }

    pub fn default_builtin_sound(&self) -> (r: BuiltinSound)
        ensures
            r == kind_default_sound(*self),
    {
        match self {
            PeriodKind::Start => BuiltinSound::BellStart,
            PeriodKind::End => BuiltinSound::BellEnd,
        }
    }
}

/// One of the sounds bundled with the program.
#[derive(Clone, Copy, Debug, PartialEq, Eq, Structural)]
pub enum BuiltinSound {
    BellStart,
    BellEnd,
    Fun,
}

pub open spec fn sound_label(s: BuiltinSound) -> Seq<char> {
    match s {
        BuiltinSound::BellStart => "bell_start.mp3"@,
        BuiltinSound::BellEnd => "bell_end.mp3"@,
        BuiltinSound::Fun => "bell_other.mp3"@,
    }
}

impl BuiltinSound {
    /// Every bundled sound, in display order.
    pub fn all() -> (r: Vec<BuiltinSound>)
        ensures
            r@ == seq![BuiltinSound::BellStart, BuiltinSound::BellEnd, BuiltinSound::Fun],
    {
        let mut v: Vec<BuiltinSound> = Vec::new();
        v.push(BuiltinSound::BellStart);
        v.push(BuiltinSound::BellEnd);
        v.push(BuiltinSound::Fun);
        v
    }

    /// The asset's file name.
    pub fn label(&self) -> (r: &'static str)
        ensures
            r@ == sound_label(*self),
    {
        match self {
            BuiltinSound::BellStart => "bell_start.mp3",
            BuiltinSound::BellEnd => "bell_end.mp3",
            BuiltinSound::Fun => "bell_other.mp3",
        }
    }
}

/// Where a period's sound comes from: a bundled asset or a file of the user's.
#[derive(Debug, PartialEq, Eq)]
pub enum SoundSource {
    Builtin(BuiltinSound),
    Local { path: String },
}

impl Clone for SoundSource {
    fn clone(&self) -> (r: Self)
        ensures
            r == *self,
    {
        match self {
            SoundSource::Builtin(b) => SoundSource::Builtin(*b),
            SoundSource::Local { path } => SoundSource::Local { path: path.clone() },
        }
    }
}

impl SoundSource {
    pub fn default_for_kind(kind: PeriodKind) -> (r: SoundSource)
        ensures
            r == SoundSource::Builtin(kind_default_sound(kind)),
    {
        SoundSource::Builtin(kind.default_builtin_sound())
    }
}

/// The sound for start periods and the sound for end periods.
#[derive(Debug, PartialEq, Eq)]
pub struct SoundSlots {
    pub start: SoundSource,
    pub end: SoundSource,
}

impl Clone for SoundSlots {
    fn clone(&self) -> (r: Self)
        ensures
            r == *self,
    {
        SoundSlots { start: self.start.clone(), end: self.end.clone() }
    }
}

pub open spec fn default_slots() -> SoundSlots {
    SoundSlots {
        start: SoundSource::Builtin(BuiltinSound::BellStart),
        end: SoundSource::Builtin(BuiltinSound::BellEnd),
    }
}

impl Default for SoundSlots {
    fn default() -> (r: Self)
        ensures
            r == default_slots(),
    {
        SoundSlots {
            start: SoundSource::default_for_kind(PeriodKind::Start),
            end: SoundSource::default_for_kind(PeriodKind::End),
        }
    }
}

/// One daily occurrence: a stored time of day, a kind, a label, and whether it is on.
#[derive(Debug)]
pub struct Period {
    pub time: String,
    pub kind: PeriodKind,
    pub name: String,
    pub enabled: bool,
}

impl Clone for Period {
    fn clone(&self) -> (r: Self)
        ensures
            r == *self,
    {
        Period {
            time: self.time.clone(),
            kind: self.kind,
            name: self.name.clone(),
            enabled: self.enabled,
        }
    }
}

/// The time of day given by hour, minute and second, if there is one.
pub open spec fn time_of(c: Option<(u32, u32, u32)>) -> Option<TimeOfDay> {
    match c {
        Some((h, m, s)) => Some(TimeOfDay { hour: h, minute: m, second: s }),
        None => None,
    }
}

/// The time of day that a period's stored time denotes, if it parses.
pub open spec fn period_time(p: Period) -> Option<TimeOfDay> {
    time_of(clock_of(p.time@))
}

/// A period fires at `now`: it is enabled and its time is `now` to the second.
pub open spec fn fires_at(p: Period, now: TimeOfDay) -> bool {
    p.enabled && period_time(p) == Some(TimeOfDay { hour: now.hour, minute: now.minute, second: now.second })
}

impl Period {
    pub fn new(time: &str, kind: PeriodKind, name: &str) -> (r: Period)
        ensures
            r.time@ == time@,
            r.kind == kind,
            r.name@ == name@,
            r.enabled,
    {
        Period { time: time.to_owned(), kind, name: name.to_owned(), enabled: true }
    }

    /// The time of day this period stands for, if its stored time parses.
    pub fn naive_time(&self) -> (r: Option<TimeOfDay>)
        ensures
            r == period_time(*self),
            r matches Some(t) ==> t.wf(),
    {
        parse_clock(self.time.as_str())
    }

    /// Whether this period fires at `now`.
    pub fn matches_now(&self, now: &TimeOfDay) -> (r: bool)
        ensures
            r == fires_at(*self, *now),
    {
        if !self.enabled {
            return false;
        }
        match self.naive_time() {
            Some(t) => t.same_second(now),
            None => false,
        }
    }
}

/// Seconds since midnight of a parsed time (0 where there is none).
pub open spec fn secs(t: Option<TimeOfDay>) -> int {
    match t {
        Some(x) => x.seconds(),
        None => 0,
    }
}

/// The period, with parsed time `t`, is enabled and still ahead of `now`.
pub open spec fn upcoming(p: Period, t: Option<TimeOfDay>, now: TimeOfDay) -> bool {
    p.enabled && t is Some && secs(t) > now.seconds()
}

/// The period, with parsed time `t`, is enabled and has been reached at `now`.
pub open spec fn reached(p: Period, t: Option<TimeOfDay>, now: TimeOfDay) -> bool {
    p.enabled && t is Some && secs(t) <= now.seconds()
}

/// `i` is the next period after `now`: the earliest upcoming one, and of equal
/// times the first in sequence.
pub open spec fn is_next_index(
    ps: Seq<Period>,
    ts: Seq<Option<TimeOfDay>>,
    now: TimeOfDay,
    i: int,
) -> bool {
    &&& 0 <= i < ps.len()
    &&& upcoming(ps[i], ts[i], now)
    &&& forall|j: int|
        0 <= j < ps.len() && upcoming(ps[j], ts[j], now) ==> secs(ts[i]) <= secs(#[trigger] ts[j])
    &&& forall|j: int|
        0 <= j < i && upcoming(ps[j], ts[j], now) ==> secs(ts[i]) < secs(#[trigger] ts[j])
}

/// `i` is the latest period reached at `now`: the greatest time not after
/// `now`, and of equal times the last in sequence.
pub open spec fn is_latest_index(
    ps: Seq<Period>,
    ts: Seq<Option<TimeOfDay>>,
    now: TimeOfDay,
    i: int,
) -> bool {
    &&& 0 <= i < ps.len()
    &&& reached(ps[i], ts[i], now)
    &&& forall|j: int|
        0 <= j < ps.len() && reached(ps[j], ts[j], now) ==> secs(#[trigger] ts[j]) <= secs(ts[i])
    &&& forall|j: int|
        i < j < ps.len() && reached(ps[j], ts[j], now) ==> secs(#[trigger] ts[j]) < secs(ts[i])
}

/// The parsed time of each period.
pub open spec fn period_times(ps: Seq<Period>) -> Seq<Option<TimeOfDay>> {
    Seq::new(ps.len(), |i: int| period_time(ps[i]))
}

/// Parses the time of each period.
pub fn parse_period_times(periods: &Vec<Period>) -> (r: Vec<Option<TimeOfDay>>)
    ensures
        r@ == period_times(periods@),
{
    let mut out: Vec<Option<TimeOfDay>> = Vec::new();
    let mut i: usize = 0;
    while i < periods.len()
        invariant
            i <= periods.len(),
            out@ == period_times(periods@).subrange(0, i as int),
        decreases periods.len() - i,
    {
        let t = periods[i].naive_time();
        out.push(t);
        i += 1;
        assert(out@ =~= period_times(periods@).subrange(0, i as int));
    }
    assert(period_times(periods@).subrange(0, i as int) =~= period_times(periods@));
    out
}

fn time_secs(t: &Option<TimeOfDay>) -> (r: u64)
    ensures
        r == secs(*t),
{
    match t {
        Some(x) => x.seconds_of_day(),
        None => 0,
    }
}

/// The index of the next period after `now`, given each period's parsed time.
pub fn next_period_index(
    periods: &Vec<Period>,
    times: &Vec<Option<TimeOfDay>>,
    now: &TimeOfDay,
) -> (r: Option<usize>)
    requires
        times.len() == periods.len(),
    ensures
        r is None <==> forall|j: int|
            0 <= j < periods.len() ==> !upcoming(periods[j], #[trigger] times[j], *now),
        r matches Some(i) ==> is_next_index(periods@, times@, *now, i as int),
{
    let now_secs = now.seconds_of_day();
    let mut best: Option<usize> = None;
    let mut i: usize = 0;
    while i < periods.len()
        invariant
            i <= periods.len() == times.len(),
            now_secs == now.seconds(),
            best is None ==> forall|j: int|
                0 <= j < i ==> !upcoming(periods[j], #[trigger] times[j], *now),
            best matches Some(b) ==> {
                &&& b < i
                &&& upcoming(periods[b as int], times[b as int], *now)
                &&& forall|j: int|
                    0 <= j < i && upcoming(periods[j], times[j], *now) ==> secs(times[b as int])
                        <= secs(#[trigger] times[j])
                &&& forall|j: int|
                    0 <= j < b && upcoming(periods[j], times[j], *now) ==> secs(times[b as int])
                        < secs(#[trigger] times[j])
            },
        decreases periods.len() - i,
    {
        if periods[i].enabled && times[i].is_some() {
            let t = time_secs(&times[i]);
            if t > now_secs {
                match best {
                    None => {
                        best = Some(i);
                    },
                    Some(b) => {
                        if t < time_secs(&times[b]) {
                            best = Some(i);
                        }
                    },
                }
            }
        }
        i += 1;
    }
    best
}

/// The index of the latest period reached at `now`, given each period's parsed time.
pub fn latest_period_index(
    periods: &Vec<Period>,
    times: &Vec<Option<TimeOfDay>>,
    now: &TimeOfDay,
) -> (r: Option<usize>)
    requires
        times.len() == periods.len(),
    ensures
        r is None <==> forall|j: int|
            0 <= j < periods.len() ==> !reached(periods[j], #[trigger] times[j], *now),
        r matches Some(i) ==> is_latest_index(periods@, times@, *now, i as int),
{
    let now_secs = now.seconds_of_day();
    let mut best: Option<usize> = None;
    let mut i: usize = 0;
    while i < periods.len()
        invariant
            i <= periods.len() == times.len(),
            now_secs == now.seconds(),
            best is None ==> forall|j: int|
                0 <= j < i ==> !reached(periods[j], #[trigger] times[j], *now),
            best matches Some(b) ==> {
                &&& b < i
                &&& reached(periods[b as int], times[b as int], *now)
                &&& forall|j: int|
                    0 <= j < i && reached(periods[j], times[j], *now) ==> secs(#[trigger] times[j])
                        <= secs(times[b as int])
                &&& forall|j: int|
                    b < j < i && reached(periods[j], times[j], *now) ==> secs(#[trigger] times[j])
                        < secs(times[b as int])
            },
        decreases periods.len() - i,
    {
        if periods[i].enabled && times[i].is_some() {
            let t = time_secs(&times[i]);
            if t <= now_secs {
                match best {
                    None => {
                        best = Some(i);
                    },
                    Some(b) => {
                        if t >= time_secs(&times[b]) {
                            best = Some(i);
                        }
                    },
                }
            }
        }
        i += 1;
    }
    best
}


/// A named, separately identified timetable with its own sounds.
#[derive(Debug)]
pub struct ScheduleProfile {
    pub id: u64,
    pub name: String,
    pub periods: Vec<Period>,
    pub sound: SoundSlots,
}

impl Clone for ScheduleProfile {
    fn clone(&self) -> (r: Self)
        ensures
            r.id == self.id,
            r.name == self.name,
            r.periods@ == self.periods@,
            r.sound == self.sound,
    {
        let periods = self.periods.clone();
        assert(periods@ =~= self.periods@);
        ScheduleProfile {
            id: self.id,
            name: self.name.clone(),
            periods,
            sound: self.sound.clone(),
        }
    }
}

/// The rows of the built-in timetable: time, kind and name.
pub open spec fn preset_rows() -> Seq<(Seq<char>, PeriodKind, Seq<char>)> {
    seq![
        ("08:00:00"@, PeriodKind::Start, "第1节开始"@),
        ("08:45:00"@, PeriodKind::End, "第1节结束"@),
        ("08:55:00"@, PeriodKind::Start, "第2节开始"@),
        ("09:40:00"@, PeriodKind::End, "第2节结束"@),
        ("10:10:00"@, PeriodKind::Start, "第3节开始"@),
        ("10:55:00"@, PeriodKind::End, "第3节结束"@),
        ("11:05:00"@, PeriodKind::Start, "第4节开始"@),
        ("11:50:00"@, PeriodKind::End, "上午结束"@),
        ("13:50:00"@, PeriodKind::Start, "第5节开始"@),
        ("14:35:00"@, PeriodKind::End, "第5节结束"@),
        ("14:45:00"@, PeriodKind::Start, "第6节开始"@),
        ("15:30:00"@, PeriodKind::End, "第6节结束"@),
        ("15:40:00"@, PeriodKind::Start, "第7节开始"@),
        ("16:25:00"@, PeriodKind::End, "第7节结束"@),
        ("19:00:00"@, PeriodKind::Start, "晚自习开始"@),
        ("21:30:00"@, PeriodKind::End, "晚自习结束"@),
    ]
}

/// The built-in timetable's name.
pub open spec fn preset_name() -> Seq<char> {
    "默认时间表"@
}

/// `p` is the built-in timetable under the id `id`.
pub open spec fn is_default_preset(p: ScheduleProfile, id: u64) -> bool {
    &&& p.id == id
    &&& p.name@ == preset_name()
    &&& p.sound == default_slots()
    &&& p.periods.len() == preset_rows().len()
    &&& forall|i: int|
        0 <= i < p.periods.len() ==> {
            &&& (#[trigger] p.periods[i]).time@ == preset_rows()[i].0
            &&& p.periods[i].kind == preset_rows()[i].1
            &&& p.periods[i].name@ == preset_rows()[i].2
            &&& p.periods[i].enabled
        }
}

/// The periods are in order of their stored time strings.
pub open spec fn sorted_by_time(ps: Seq<Period>) -> bool {
    forall|a: int, b: int|
        0 <= a < b < ps.len() ==> lex_le(#[trigger] ps[a].time@, #[trigger] ps[b].time@)
}

proof fn lemma_insert_keeps_sorted(v: Seq<Period>, i: int, j: int, x: Period)
    requires
        0 <= j <= i <= v.len(),
        sorted_by_time(v.subrange(0, i)),
        j > 0 ==> lex_le(v[j - 1].time@, x.time@),
        forall|k: int| j <= k < i ==> lex_lt(x.time@, #[trigger] v[k].time@),
    ensures
        sorted_by_time(v.insert(j, x).subrange(0, i + 1)),
{
    let w = v.insert(j, x).subrange(0, i + 1);
    let u = v.subrange(0, i);
    assert forall|a: int, b: int| 0 <= a < b < w.len() implies lex_le(
        #[trigger] w[a].time@,
        #[trigger] w[b].time@,
    ) by {
        if b < j {
            assert(w[a] == u[a] && w[b] == u[b]);
        } else if b == j {
            assert(w[b] == x);
            assert(w[a] == u[a]);
            if a < j - 1 {
                assert(lex_le(u[a].time@, u[j - 1].time@));
            } else {
                lemma_lex_irreflexive(u[a].time@);
            }
            lemma_lex_le_transitive(u[a].time@, v[j - 1].time@, x.time@);
        } else if a == j {
            assert(w[a] == x);
            assert(w[b] == v[b - 1]);
            assert(lex_lt(x.time@, v[b - 1].time@));
            if lex_lt(v[b - 1].time@, x.time@) {
                lemma_lex_transitive(x.time@, v[b - 1].time@, x.time@);
                lemma_lex_irreflexive(x.time@);
            }
        } else if a < j {
            assert(w[a] == u[a] && w[b] == u[b - 1]);
        } else {
            assert(w[a] == u[a - 1] && w[b] == u[b - 1]);
        }
    }
}

/// `a` and `b` hold the same periods, each as often.
pub open spec fn same_periods(a: Seq<Period>, b: Seq<Period>) -> bool {
    a.to_multiset() == b.to_multiset()
}

/// `a` is `b` reordered by `perm` (`a[k]` is `b[perm[k]]`), and periods of
/// equal time keep their relative order.
pub open spec fn stable_reorder(a: Seq<Period>, b: Seq<Period>, perm: Seq<int>) -> bool {
    &&& perm.len() == a.len()
    &&& a.len() == b.len()
    &&& forall|k: int| 0 <= k < a.len() ==> 0 <= #[trigger] perm[k] < b.len() && a[k] == b[perm[k]]
    &&& forall|k1: int, k2: int|
        0 <= k1 < k2 < a.len() ==> #[trigger] perm[k1] != #[trigger] perm[k2]
    &&& forall|k1: int, k2: int|
        0 <= k1 < k2 < a.len() && (#[trigger] a[k1]).time@ == (#[trigger] a[k2]).time@ ==> perm[k1]
            < perm[k2]
}

/// The state of the insertion sort once the first `i` periods are in place.
spec fn sort_progress(v: Seq<Period>, o: Seq<Period>, perm: Seq<int>, i: int) -> bool {
    &&& perm.len() == v.len() == o.len()
    &&& 0 <= i <= v.len()
    &&& forall|k: int| 0 <= k < v.len() ==> 0 <= #[trigger] perm[k] < v.len() && v[k] == o[perm[k]]
    &&& forall|k1: int, k2: int|
        0 <= k1 < k2 < v.len() ==> #[trigger] perm[k1] != #[trigger] perm[k2]
    &&& forall|k: int| i <= k < v.len() ==> #[trigger] perm[k] == k
    &&& forall|k: int| 0 <= k < i ==> #[trigger] perm[k] < i
    &&& forall|k1: int, k2: int|
        0 <= k1 < k2 < i && (#[trigger] v[k1]).time@ == (#[trigger] v[k2]).time@ ==> perm[k1]
            < perm[k2]
}

proof fn lemma_insert_keeps_progress(v: Seq<Period>, o: Seq<Period>, perm: Seq<int>, i: int, j: int)
    requires
        sort_progress(v, o, perm, i),
        0 <= j <= i < v.len(),
        forall|k: int| j <= k < i ==> lex_lt(v[i].time@, #[trigger] v[k].time@),
    ensures
        sort_progress(
            v.remove(i).insert(j, v[i]),
            o,
            perm.remove(i).insert(j, i),
            i + 1,
        ),
{
    let x = v[i];
    let w = v.remove(i).insert(j, x);
    let p = perm.remove(i).insert(j, i);
    assert(perm[i] == i);
    // Where each new position came from.
    assert forall|k: int| 0 <= k < w.len() implies {
        &&& (k < j ==> w[k] == v[k] && p[k] == perm[k])
        &&& (k == j ==> w[k] == x && p[k] == i)
        &&& (j < k <= i ==> w[k] == v[k - 1] && p[k] == perm[k - 1])
        &&& (i < k ==> w[k] == v[k] && p[k] == perm[k])
    } by {}
    assert forall|k: int| 0 <= k < w.len() implies 0 <= #[trigger] p[k] < w.len() && w[k]
        == o[p[k]] by {}
    assert forall|k1: int, k2: int| 0 <= k1 < k2 < w.len() implies #[trigger] p[k1]
        != #[trigger] p[k2] by {
        let a = if k1 < j { k1 } else if k1 == j { i } else if k1 <= i { k1 - 1 } else { k1 };
        let b = if k2 < j { k2 } else if k2 == j { i } else if k2 <= i { k2 - 1 } else { k2 };
        assert(p[k1] == perm[a] && p[k2] == perm[b]);
        assert(a != b);
        if a < b {
            assert(perm[a] != perm[b]);
        } else {
            assert(perm[b] != perm[a]);
        }
    }
    assert forall|k: int| i + 1 <= k < w.len() implies #[trigger] p[k] == k by {}
    assert forall|k: int| 0 <= k < i + 1 implies #[trigger] p[k] < i + 1 by {
        if k < j {
            assert(perm[k] < i);
        } else if k > j {
            assert(perm[k - 1] < i);
        }
    }
    assert forall|k1: int, k2: int|
        0 <= k1 < k2 < i + 1 && (#[trigger] w[k1]).time@ == (#[trigger] w[k2]).time@ implies p[k1]
        < p[k2] by {
        if k2 == j {
            assert(p[k1] == perm[k1]);
            assert(perm[k1] < i);
        } else if k1 == j {
            assert(w[k2] == v[k2 - 1]);
            assert(lex_lt(x.time@, v[k2 - 1].time@));
            lemma_lex_irreflexive(x.time@);
        } else {
            let a = if k1 < j { k1 } else { k1 - 1 };
            let b = if k2 < j { k2 } else { k2 - 1 };
            assert(w[k1] == v[a] && w[k2] == v[b] && p[k1] == perm[a] && p[k2] == perm[b]);
            assert(a < b);
        }
    }
}

/// Sorts periods by their stored time strings; periods of equal time keep
/// their relative order.
pub fn sort_by_time(v: &mut Vec<Period>)
    ensures
        same_periods(final(v)@, old(v)@),
        sorted_by_time(final(v)@),
        exists|perm: Seq<int>| stable_reorder(final(v)@, old(v)@, perm),
{
    let n = v.len();
    let ghost mut perm: Seq<int> = Seq::new(n as nat, |k: int| k);
    if n == 0 {
        assert(stable_reorder(v@, old(v)@, perm));
        return;
    }
    let mut i: usize = 1;
    assert(sorted_by_time(v@.subrange(0, 1)));
    while i < n
        invariant
            1 <= i <= n == v.len(),
            sorted_by_time(v@.subrange(0, i as int)),
            v@.to_multiset() == old(v)@.to_multiset(),
            sort_progress(v@, old(v)@, perm, i as int),
        decreases n - i,
    {
        let ghost before = v@;
        let x = v.remove(i);
        assert(v@.subrange(0, i as int) =~= before.subrange(0, i as int));
        let xt = chars_of(x.time.as_str());
        let mut j: usize = i;
        while j > 0 && lex_less(&xt, &chars_of(v[j - 1].time.as_str()))
            invariant
                0 <= j <= i <= v.len(),
                v@ == before.remove(i as int),
                xt@ == x.time@,
                forall|k: int| j <= k < i ==> lex_lt(x.time@, #[trigger] v@[k].time@),
            decreases j,
        {
            j -= 1;
        }
        proof {
            if j > 0 {
                lemma_lex_total(x.time@, v@[j - 1].time@);
            }
            lemma_insert_keeps_sorted(v@, i as int, j as int, x);
            assert forall|k: int| j <= k < i implies lex_lt(
                before[i as int].time@,
                #[trigger] before[k].time@,
            ) by {
                assert(v@[k] == before[k]);
            }
            lemma_insert_keeps_progress(before, old(v)@, perm, i as int, j as int);
            perm = perm.remove(i as int).insert(j as int, i as int);
        }
        v.insert(j, x);
        i += 1;
    }
    assert(v@.subrange(0, n as int) =~= v@);
    assert(stable_reorder(v@, old(v)@, perm));
}

impl ScheduleProfile {
    /// The built-in timetable, under the id `id`.
    pub fn default_preset(id: u64) -> (r: ScheduleProfile)
        ensures
            is_default_preset(r, id),
    {
        let mut periods: Vec<Period> = Vec::new();
        periods.push(Period::new("08:00:00", PeriodKind::Start, "第1节开始"));
        periods.push(Period::new("08:45:00", PeriodKind::End, "第1节结束"));
        periods.push(Period::new("08:55:00", PeriodKind::Start, "第2节开始"));
        periods.push(Period::new("09:40:00", PeriodKind::End, "第2节结束"));
        periods.push(Period::new("10:10:00", PeriodKind::Start, "第3节开始"));
        periods.push(Period::new("10:55:00", PeriodKind::End, "第3节结束"));
        periods.push(Period::new("11:05:00", PeriodKind::Start, "第4节开始"));
        periods.push(Period::new("11:50:00", PeriodKind::End, "上午结束"));
        periods.push(Period::new("13:50:00", PeriodKind::Start, "第5节开始"));
        periods.push(Period::new("14:35:00", PeriodKind::End, "第5节结束"));
        periods.push(Period::new("14:45:00", PeriodKind::Start, "第6节开始"));
        periods.push(Period::new("15:30:00", PeriodKind::End, "第6节结束"));
        periods.push(Period::new("15:40:00", PeriodKind::Start, "第7节开始"));
        periods.push(Period::new("16:25:00", PeriodKind::End, "第7节结束"));
        periods.push(Period::new("19:00:00", PeriodKind::Start, "晚自习开始"));
        periods.push(Period::new("21:30:00", PeriodKind::End, "晚自习结束"));
        ScheduleProfile {
            id,
            name: "默认时间表".to_owned(),
            periods,
            sound: SoundSlots::default(),
        }
    }

    /// A timetable without periods, with the default sounds.
    pub fn empty(id: u64, name: &str) -> (r: ScheduleProfile)
        ensures
            r.id == id,
            r.name@ == name@,
            r.periods@.len() == 0,
            r.sound == default_slots(),
    {
        ScheduleProfile { id, name: name.to_owned(), periods: Vec::new(), sound: SoundSlots::default() }
    }

    /// Orders the periods by their stored time strings; periods of equal
    /// time keep their relative order.
    pub fn sort_periods(&mut self)
        ensures
            same_periods(final(self).periods@, old(self).periods@),
            sorted_by_time(final(self).periods@),
            exists|perm: Seq<int>| stable_reorder(final(self).periods@, old(self).periods@, perm),
            final(self).id == old(self).id,
            final(self).name == old(self).name,
            final(self).sound == old(self).sound,
    {
        sort_by_time(&mut self.periods);
    }

    /// The earliest enabled period strictly after `now` (of equal times, the
    /// first in sequence), or `None` when no enabled period remains today.
    pub fn next_period(&self, now: &TimeOfDay) -> (r: Option<&Period>)
        ensures
            r is None <==> forall|j: int|
                0 <= j < self.periods.len() ==> !upcoming(
                    self.periods[j],
                    #[trigger] period_times(self.periods@)[j],
                    *now,
                ),
            r matches Some(p) ==> exists|i: int|
                is_next_index(self.periods@, period_times(self.periods@), *now, i) && *p
                    == self.periods@[i],
    {
        let times = parse_period_times(&self.periods);
        match next_period_index(&self.periods, &times, now) {
            Some(i) => Some(&self.periods[i]),
            None => None,
        }
    }

    /// The name of the latest enabled period reached at `now` (of equal times,
    /// the last in sequence), or the standby label when none has been reached.
    pub fn current_status(&self, now: &TimeOfDay) -> (r: String)
        ensures
            (forall|j: int|
                0 <= j < self.periods.len() ==> !reached(
                    self.periods[j],
                    #[trigger] period_times(self.periods@)[j],
                    *now,
                )) ==> r@ == standby_label(),
            (exists|j: int|
                0 <= j < self.periods.len() && reached(
                    self.periods[j],
                    #[trigger] period_times(self.periods@)[j],
                    *now,
                )) ==> exists|i: int|
                is_latest_index(self.periods@, period_times(self.periods@), *now, i) && r@
                    == self.periods@[i].name@,
    {
        let times = parse_period_times(&self.periods);
        match latest_period_index(&self.periods, &times, now) {
            Some(i) => self.periods[i].name.clone(),
            None => "待机".to_owned(),
        }
    }

    /// Adds a period from user input: the time is normalised (see
    /// [`normalized`]) and the name trimmed; the periods are then re-sorted.
    pub fn add_period(&mut self, time: &str, kind: PeriodKind, name: &str) -> (r: Result<
        (),
        PeriodInputError,
    >)
        ensures
            normalized(time@) is None ==> r == Err::<(), _>(PeriodInputError::InvalidTime),
            normalized(time@) is Some && trim(name@).len() == 0 ==> r == Err::<(), _>(
                PeriodInputError::EmptyName,
            ),
            r is Err ==> *final(self) == *old(self),
            r is Ok <==> normalized(time@) is Some && trim(name@).len() > 0,
            r is Ok ==> exists|p: Period|
                {
                    &&& Some(p.time@) == normalized(time@)
                    &&& p.kind == kind
                    &&& p.name@ == trim(name@)
                    &&& p.enabled
                    &&& same_periods(final(self).periods@, old(self).periods@.push(p))
                },
            r is Ok ==> sorted_by_time(final(self).periods@),
            final(self).id == old(self).id,
            final(self).name == old(self).name,
            final(self).sound == old(self).sound,
    {
        let norm = match normalize_time_str(time) {
            Some(t) => t,
            None => return Err(PeriodInputError::InvalidTime),
        };
        let trimmed = trim_chars(&chars_of(name));
        if trimmed.len() == 0 {
            return Err(PeriodInputError::EmptyName);
        }
        let p = Period { time: norm, kind, name: string_of(&trimmed), enabled: true };
        let ghost added = p;
        self.periods.push(p);
        let ghost pushed = self.periods@;
        self.sort_periods();
        assert(pushed == old(self).periods@.push(added));
        assert(Some(added.time@) == normalized(time@));
        assert(same_periods(self.periods@, old(self).periods@.push(added)));
        assert(added.name@ == trim(name@));
        assert(added.kind == kind && added.enabled);
        Ok(())
    }

    /// Sets the time of the period at `index` from user input. Input that does
    /// not normalise (see [`normalized`]) is rejected and nothing changes; on
    /// success the periods are re-sorted.
    pub fn set_period_time(&mut self, index: usize, input: &str) -> (r: bool)
        requires
            index < old(self).periods.len(),
        ensures
            r == normalized(input@) is Some,
            !r ==> *final(self) == *old(self),
            r ==> exists|p: Period|
                {
                    &&& Some(p.time@) == normalized(input@)
                    &&& p.kind == old(self).periods[index as int].kind
                    &&& p.name == old(self).periods[index as int].name
                    &&& p.enabled == old(self).periods[index as int].enabled
                    &&& same_periods(
                        final(self).periods@,
                        old(self).periods@.update(index as int, p),
                    )
                },
            r ==> sorted_by_time(final(self).periods@),
            final(self).id == old(self).id,
            final(self).name == old(self).name,
            final(self).sound == old(self).sound,
    {
        match normalize_time_str(input) {
            Some(t) => {
                self.periods[index].time = t;
                let ghost edited = self.periods@[index as int];
                assert(self.periods@ == old(self).periods@.update(index as int, edited));
                self.sort_periods();
                true
            },
            None => false,
        }
    }

    /// Removes and returns the period at `index`; the rest stay sorted as they were.
    pub fn remove_period(&mut self, index: usize) -> (r: Period)
        requires
            index < old(self).periods.len(),
        ensures
            r == old(self).periods[index as int],
            same_periods(final(self).periods@, old(self).periods@.remove(index as int)),
            sorted_by_time(final(self).periods@),
            final(self).id == old(self).id,
            final(self).name == old(self).name,
            final(self).sound == old(self).sound,
    {
        let p = self.periods.remove(index);
        self.sort_periods();
        p
    }
}

/// Why a period could not be added from user input.
#[derive(Clone, Copy, Debug, PartialEq, Eq, Structural)]
pub enum PeriodInputError {
    /// The time does not normalise to a valid `HH:MM:SS`.
    InvalidTime,
    /// The name is empty once trimmed.
    EmptyName,
}

/// A period fires exactly at its own time, to the second, and only while enabled.
pub proof fn lemma_fires_exactly_at_own_time(p: Period, now: TimeOfDay)
    ensures
        !p.enabled ==> !fires_at(p, now),
        p.enabled && period_time(p) is Some ==> (fires_at(p, now) <==> period_time(p)->0.hms()
            == now.hms()),
{
}


/// The configuration root: every profile, which one is active, the next id to
/// hand out, and the launch-on-login preference.
#[derive(Debug)]
pub struct AppConfig {
    pub active_schedule_id: Option<u64>,
    pub next_schedule_id: u64,
    pub schedules: Vec<ScheduleProfile>,
    pub autostart: bool,
}

impl Clone for AppConfig {
    fn clone(&self) -> (r: Self)
        ensures
            r.active_schedule_id == self.active_schedule_id,
            r.next_schedule_id == self.next_schedule_id,
            r.autostart == self.autostart,
            r.schedules.len() == self.schedules.len(),
            forall|i: int|
                0 <= i < self.schedules.len() ==> {
                    &&& (#[trigger] r.schedules[i]).id == self.schedules[i].id
                    &&& r.schedules[i].name == self.schedules[i].name
                    &&& r.schedules[i].periods@ == self.schedules[i].periods@
                    &&& r.schedules[i].sound == self.schedules[i].sound
                },
    {
        AppConfig {
            active_schedule_id: self.active_schedule_id,
            next_schedule_id: self.next_schedule_id,
            schedules: self.schedules.clone(),
            autostart: self.autostart,
        }
    }
}

impl Default for AppConfig {
    fn default() -> (r: Self)
        ensures
            r.active_schedule_id == Some(1u64),
            r.next_schedule_id == 2,
            r.schedules.len() == 1,
            is_default_preset(r.schedules[0], 1),
            r.autostart,
            r.wf(),
    {
        AppConfig::default_config()
    }
}

/// The launch-on-login preference of a configuration that does not state one.
pub fn default_autostart() -> (r: bool)
    ensures
        r,
{
    true
}

/// Some profile of `s` has the id `id`.
pub open spec fn has_id(s: Seq<ScheduleProfile>, id: u64) -> bool {
    exists|i: int| 0 <= i < s.len() && (#[trigger] s[i]).id == id
}

/// `i` is the first profile of `s` with the id `id`.
pub open spec fn is_first_with_id(s: Seq<ScheduleProfile>, id: u64, i: int) -> bool {
    &&& 0 <= i < s.len()
    &&& s[i].id == id
    &&& forall|j: int| 0 <= j < i ==> (#[trigger] s[j]).id != id
}

/// The id that the active reference falls back to: the first profile's, if any.
pub open spec fn first_id(s: Seq<ScheduleProfile>) -> Option<u64> {
    if s.len() > 0 {
        Some(s[0].id)
    } else {
        None
    }
}

impl AppConfig {
    /// The active reference, if set, names an existing profile.
    pub open spec fn active_valid(self) -> bool {
        self.active_schedule_id matches Some(id) ==> has_id(self.schedules@, id)
    }

    /// Ids are unique and all below the next id to hand out.
    pub open spec fn ids_valid(self) -> bool {
        &&& forall|i: int|
            0 <= i < self.schedules.len() ==> (#[trigger] self.schedules[i]).id
                < self.next_schedule_id
        &&& forall|i: int, j: int|
            0 <= i < j < self.schedules.len() ==> (#[trigger] self.schedules[i]).id
                != (#[trigger] self.schedules[j]).id
    }

    pub open spec fn wf(self) -> bool {
        self.active_valid() && self.ids_valid()
    }

    /// The active reference names no existing profile (or is unset).
    pub open spec fn active_missing(self) -> bool {
        match self.active_schedule_id {
            Some(id) => !has_id(self.schedules@, id),
            None => true,
        }
    }

    /// A configuration holding the built-in timetable under id 1, active.
    pub fn default_config() -> (r: AppConfig)
        ensures
            r.active_schedule_id == Some(1u64),
            r.next_schedule_id == 2,
            r.schedules.len() == 1,
            is_default_preset(r.schedules[0], 1),
            r.autostart,
            r.wf(),
    {
        let id: u64 = 1;
        let mut schedules: Vec<ScheduleProfile> = Vec::new();
        schedules.push(ScheduleProfile::default_preset(id));
        let r = AppConfig {
            active_schedule_id: Some(id),
            next_schedule_id: id + 1,
            schedules,
            autostart: true,
        };
        assert(r.schedules@[0].id == 1);
        assert(has_id(r.schedules@, 1));
        r
    }

    /// The position of the active profile: the first with the active id.
    pub fn active_index(&self) -> (r: Option<usize>)
        ensures
            r is None <==> self.active_missing(),
            r matches Some(i) ==> self.active_schedule_id matches Some(id) && is_first_with_id(
                self.schedules@,
                id,
                i as int,
            ),
    {
        let id = match self.active_schedule_id {
            Some(id) => id,
            None => return None,
        };
        let mut i: usize = 0;
        while i < self.schedules.len()
            invariant
                i <= self.schedules.len(),
                self.active_schedule_id == Some(id),
                forall|j: int| 0 <= j < i ==> (#[trigger] self.schedules[j]).id != id,
            decreases self.schedules.len() - i,
        {
            if self.schedules[i].id == id {
                return Some(i);
            }
            i += 1;
        }
        None
    }

    /// The active profile, if the active reference names one.
    pub fn active_schedule(&self) -> (r: Option<&ScheduleProfile>)
        ensures
            r is None <==> self.active_missing(),
            r matches Some(p) ==> self.active_schedule_id == Some(p.id) && exists|i: int|
                is_first_with_id(self.schedules@, p.id, i) && *p == self.schedules@[i],
    {
        match self.active_index() {
            Some(i) => Some(&self.schedules[i]),
            None => None,
        }
    }

    /// The active profile, for editing in place.
    pub fn active_schedule_mut(&mut self) -> (r: Option<&mut ScheduleProfile>)
        ensures
            r is None <==> old(self).active_missing(),
            r is None ==> *final(self) == *old(self),
            r matches Some(p) ==> old(self).active_schedule_id == Some(p.id) && exists|i: int|
                {
                    &&& #[trigger] is_first_with_id(old(self).schedules@, p.id, i)
                    &&& *p == old(self).schedules@[i]
                    &&& final(self).schedules@ == old(self).schedules@.update(i, *final(p))
                },
            final(self).active_schedule_id == old(self).active_schedule_id,
            final(self).next_schedule_id == old(self).next_schedule_id,
            final(self).autostart == old(self).autostart,
    {
        match self.active_index() {
            Some(i) => Some(&mut self.schedules[i]),
            None => None,
        }
    }

    /// Repairs the active reference: kept if it names an existing profile,
    /// otherwise reset to the first profile's id, or unset if there is none.
    pub fn ensure_active_schedule(&mut self)
        ensures
            !old(self).active_missing() ==> final(self).active_schedule_id
                == old(self).active_schedule_id,
            old(self).active_missing() ==> final(self).active_schedule_id == first_id(
                old(self).schedules@,
            ),
            final(self).active_valid(),
            final(self).schedules == old(self).schedules,
            final(self).next_schedule_id == old(self).next_schedule_id,
            final(self).autostart == old(self).autostart,
    {
        if self.active_schedule_id.is_some() && self.active_index().is_some() {
            return;
        }
        self.active_schedule_id = if self.schedules.len() > 0 {
            Some(self.schedules[0].id)
        } else {
            None
        };
        proof {
            if self.schedules.len() > 0 {
                assert(self.schedules@[0].id == self.schedules[0].id);
            }
        }
    }

    /// Appends an empty profile under the next id, makes it active, and
    /// returns its id.
    pub fn create_empty_schedule(&mut self, name: String) -> (r: u64)
        requires
            old(self).next_schedule_id < u64::MAX,
        ensures
            r == old(self).next_schedule_id,
            final(self).next_schedule_id == old(self).next_schedule_id + 1,
            final(self).schedules.len() == old(self).schedules.len() + 1,
            final(self).schedules@.drop_last() == old(self).schedules@,
            final(self).schedules@.last().id == r,
            final(self).schedules@.last().name@ == name@,
            final(self).schedules@.last().periods@.len() == 0,
            final(self).schedules@.last().sound == default_slots(),
            final(self).active_schedule_id == Some(r),
            final(self).autostart == old(self).autostart,
            old(self).ids_valid() ==> final(self).wf(),
    {
        let id = self.next_schedule_id;
        self.next_schedule_id = id + 1;
        self.schedules.push(ScheduleProfile::empty(id, name.as_str()));
        proof {
            let s = self.schedules@;
            assert(s.drop_last() =~= old(self).schedules@);
            assert(s[s.len() - 1].id == id);
            if old(self).ids_valid() {
                assert forall|i: int, j: int|
                    0 <= i < j < s.len() implies (#[trigger] s[i]).id != (#[trigger] s[j]).id by {
                    if j == s.len() - 1 {
                        assert(s[i] == old(self).schedules@[i]);
                    } else {
                        assert(s[i] == old(self).schedules@[i]);
                        assert(s[j] == old(self).schedules@[j]);
                    }
                }
                assert forall|i: int| 0 <= i < s.len() implies (#[trigger] s[i]).id
                    < self.next_schedule_id by {
                    if i < s.len() - 1 {
                        assert(s[i] == old(self).schedules@[i]);
                    }
                }
            }
        }
        self.active_schedule_id = Some(id);
        id
    }

    /// Removes the active profile and returns it; the active reference then
    /// falls to the first remaining profile, or is unset if none remains.
    /// Where the active reference names no profile, nothing changes.
    pub fn remove_active_schedule(&mut self) -> (r: Option<ScheduleProfile>)
        ensures
            r is None <==> old(self).active_missing(),
            r is None ==> *final(self) == *old(self),
            r matches Some(p) ==> exists|i: int|
                {
                    &&& old(self).active_schedule_id == Some(p.id)
                    &&& is_first_with_id(old(self).schedules@, p.id, i)
                    &&& p == old(self).schedules@[i]
                    &&& final(self).schedules@ == old(self).schedules@.remove(i)
                },
            r is Some ==> final(self).active_schedule_id == first_id(final(self).schedules@),
            r is Some ==> final(self).active_valid(),
            old(self).active_valid() ==> final(self).active_valid(),
            final(self).next_schedule_id == old(self).next_schedule_id,
            final(self).autostart == old(self).autostart,
            old(self).wf() ==> final(self).wf(),
            r matches Some(p) ==> (old(self).ids_valid() ==> !has_id(final(self).schedules@, p.id)),
    {
        let index = match self.active_index() {
            Some(i) => i,
            None => {
                return None;
            },
        };
        let removed = self.schedules.remove(index);
        self.active_schedule_id = if self.schedules.len() > 0 {
            Some(self.schedules[0].id)
        } else {
            None
        };
        proof {
            let s = self.schedules@;
            let o = old(self).schedules@;
            if s.len() > 0 {
                assert(s[0].id == self.schedules[0].id);
            }
            if old(self).ids_valid() {
                if has_id(s, removed.id) {
                    let k = choose|k: int| 0 <= k < s.len() && (#[trigger] s[k]).id == removed.id;
                    let ok = if k < index { k } else { k + 1 };
                    assert(s[k] == o[ok]);
                    assert(o[index as int].id == removed.id);
                }
                assert forall|i: int, j: int|
                    0 <= i < j < s.len() implies (#[trigger] s[i]).id != (#[trigger] s[j]).id by {
                    let oi = if i < index { i } else { i + 1 };
                    let oj = if j < index { j } else { j + 1 };
                    assert(s[i] == o[oi] && s[j] == o[oj]);
                }
                assert forall|i: int| 0 <= i < s.len() implies (#[trigger] s[i]).id
                    < self.next_schedule_id by {
                    let oi = if i < index { i } else { i + 1 };
                    assert(s[i] == o[oi]);
                }
            }
        }
        Some(removed)
    }

    /// Makes `id` the active profile if a profile has it; otherwise, and for
    /// `None`, the reference is repaired as by [`AppConfig::ensure_active_schedule`].
    pub fn set_active_schedule(&mut self, id: Option<u64>)
        ensures
            (id matches Some(k) && has_id(old(self).schedules@, k)) ==> final(self).active_schedule_id
                == id,
            !(id matches Some(k) && has_id(old(self).schedules@, k)) ==> final(self).active_schedule_id
                == first_id(old(self).schedules@),
            final(self).active_valid(),
            final(self).schedules == old(self).schedules,
            final(self).next_schedule_id == old(self).next_schedule_id,
            final(self).autostart == old(self).autostart,
    {
        let mut found = false;
        if let Some(k) = id {
            let mut i: usize = 0;
            while i < self.schedules.len()
                invariant
                    i <= self.schedules.len(),
                    found ==> has_id(self.schedules@, k),
                    !found ==> forall|j: int| 0 <= j < i ==> (#[trigger] self.schedules[j]).id != k,
                decreases self.schedules.len() - i,
            {
                if self.schedules[i].id == k {
                    found = true;
                    assert(self.schedules@[i as int].id == k);
                }
                i += 1;
            }
        }
        self.active_schedule_id = if found {
            id
        } else {
            None
        };
        self.ensure_active_schedule();
    }

    /// The configuration to start from, given what loading the stored one
    /// gave: that configuration with its active reference repaired, or, where
    /// there was none to load, the built-in one, which is then to be saved
    /// (the flag says so).
    pub fn from_loaded(loaded: Option<AppConfig>) -> (r: (AppConfig, bool))
        ensures
            loaded is None ==> {
                &&& r.1
                &&& r.0.active_schedule_id == Some(1u64)
                &&& r.0.next_schedule_id == 2
                &&& r.0.schedules.len() == 1
                &&& is_default_preset(r.0.schedules[0], 1)
                &&& r.0.autostart
            },
            loaded matches Some(c) ==> {
                &&& !r.1
                &&& r.0.schedules == c.schedules
                &&& r.0.next_schedule_id == c.next_schedule_id
                &&& r.0.autostart == c.autostart
                &&& !c.active_missing() ==> r.0.active_schedule_id == c.active_schedule_id
                &&& c.active_missing() ==> r.0.active_schedule_id == first_id(c.schedules@)
            },
            r.0.active_valid(),
    {
        match loaded {
            Some(c) => {
                let mut c = c;
                c.ensure_active_schedule();
                (c, false)
            },
            None => (AppConfig::default_config(), true),
        }
    }
}

/// The status shown before any period of the day has been reached.
pub open spec fn standby_label() -> Seq<char> {
    "待机"@
}

} // verus!
