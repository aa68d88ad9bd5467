//! The scheduling engine's state and the decision taken on each timer tick.
//!
//! The engine is a plain value: whoever runs the timer holds it behind one
//! lock, calls [`Engine::tick`] once per interval, performs the dispatch that
//! comes back outside the lock, and hands any warning back through
//! [`Engine::report_warning`].
use vstd::prelude::*;

use crate::schedule::{fires_at, is_first_with_id, AppConfig, Period, SoundSlots};
use crate::time::TimeOfDay;

verus! {

/// What a tick decided to dispatch: the period that fired and the active
/// profile's sounds.
#[derive(Debug)]
pub struct Trigger {
    pub period: Period,
    pub sound: SoundSlots,
}

/// `i` is the first period of `ps` that fires at `now`.
pub open spec fn is_first_firing(ps: Seq<Period>, now: TimeOfDay, i: int) -> bool {
    &&& 0 <= i < ps.len()
    &&& fires_at(ps[i], now)
    &&& forall|j: int| 0 <= j < i ==> !fires_at(#[trigger] ps[j], now)
}

/// Some period of the active profile of `c` fires at `now`.
pub open spec fn something_fires(c: AppConfig, now: TimeOfDay) -> bool {
    exists|a: int, i: int|
        #[trigger] is_first_with_id(c.schedules@, c.active_schedule_id->0, a)
            && c.active_schedule_id is Some && 0 <= i < c.schedules@[a].periods.len()
            && fires_at(#[trigger] c.schedules@[a].periods@[i], now)
}

/// `t` is what the active profile of `c` dispatches at `now`: its first
/// period firing then, with the profile's sounds.
pub open spec fn dispatch_of(c: AppConfig, now: TimeOfDay, t: Trigger) -> bool {
    exists|a: int, i: int|
        #[trigger] is_first_with_id(c.schedules@, c.active_schedule_id->0, a)
            && c.active_schedule_id is Some && #[trigger] is_first_firing(
            c.schedules@[a].periods@,
            now,
            i,
        ) && t.period == c.schedules@[a].periods@[i] && t.sound == c.schedules@[a].sound
}

/// Live configuration, pause flag, dedup marker and status mailbox.
#[derive(Debug)]
pub struct Engine {
    pub config: AppConfig,
    pub enabled: bool,
    /// The minute of the day (hour * 60 + minute) of the last dispatch.
    pub last_triggered_minute: Option<u64>,
    /// Status messages not yet taken by the interface.
    pub status_events: Vec<String>,
    /// Every warning already surfaced once in this run.
    pub warned: Vec<String>,
}

/// A tick is due at `now`: the engine is on, this minute has not dispatched
/// yet, and some period of the active profile fires.
pub open spec fn tick_dispatches(e: Engine, now: TimeOfDay) -> bool {
    e.enabled && e.last_triggered_minute != Some(now.minute_index() as u64) && something_fires(
        e.config,
        now,
    )
}

/// One tick at `now` takes `e` to `e2` and returns `r`.
pub open spec fn tick_step(e: Engine, now: TimeOfDay, r: Option<Trigger>, e2: Engine) -> bool {
    if tick_dispatches(e, now) {
        &&& r matches Some(t) && dispatch_of(e.config, now, t)
        &&& e2.last_triggered_minute == Some(now.minute_index() as u64)
        &&& e2.config == e.config
        &&& e2.enabled == e.enabled
        &&& e2.status_events == e.status_events
        &&& e2.warned == e.warned
    } else {
        r is None && e2 == e
    }
}

/// The warning `w` has been surfaced before.
pub open spec fn was_warned(e: Engine, w: Seq<char>) -> bool {
    exists|i: int| 0 <= i < e.warned.len() && (#[trigger] e.warned@[i])@ == w
}

impl Engine {
    /// An engine that is on, has dispatched nothing, and holds no messages.
    pub fn new(config: AppConfig) -> (r: Engine)
        ensures
            r.config == config,
            r.enabled,
            r.last_triggered_minute is None,
            r.status_events@.len() == 0,
            r.warned@.len() == 0,
    {
        Engine {
            config,
            enabled: true,
            last_triggered_minute: None,
            status_events: Vec::new(),
            warned: Vec::new(),
        }
    }

    /// Replaces the live configuration; it takes effect on the next tick.
    pub fn update_config(&mut self, new_config: AppConfig)
        ensures
            final(self).config == new_config,
            final(self).enabled == old(self).enabled,
            final(self).last_triggered_minute == old(self).last_triggered_minute,
            final(self).status_events == old(self).status_events,
            final(self).warned == old(self).warned,
    {
        self.config = new_config;
    }

    /// Flips the pause flag and returns the new value.
    pub fn toggle_enabled(&mut self) -> (r: bool)
        ensures
            final(self).enabled == !old(self).enabled,
            r == final(self).enabled,
            final(self).config == old(self).config,
            final(self).last_triggered_minute == old(self).last_triggered_minute,
            final(self).status_events == old(self).status_events,
            final(self).warned == old(self).warned,
    {
        self.enabled = !self.enabled;
        self.enabled
    }

    pub fn is_enabled(&self) -> (r: bool)
        ensures
            r == self.enabled,
    {
        self.enabled
    }

    /// Removes and returns every pending status message, oldest first.
    pub fn take_status_events(&mut self) -> (r: Vec<String>)
        ensures
            r@ == old(self).status_events@,
            final(self).status_events@.len() == 0,
            final(self).config == old(self).config,
            final(self).enabled == old(self).enabled,
            final(self).last_triggered_minute == old(self).last_triggered_minute,
            final(self).warned == old(self).warned,
    {
        let mut taken: Vec<String> = Vec::new();
        std::mem::swap(&mut taken, &mut self.status_events);
        taken
    }

    /// Surfaces a dispatch warning as a status message, once per distinct text.
    pub fn report_warning(&mut self, warning: String)
        ensures
            was_warned(*old(self), warning@) ==> *final(self) == *old(self),
            !was_warned(*old(self), warning@) ==> {
                &&& final(self).status_events@ == old(self).status_events@.push(warning)
                &&& final(self).warned@ == old(self).warned@.push(warning)
                &&& final(self).config == old(self).config
                &&& final(self).enabled == old(self).enabled
                &&& final(self).last_triggered_minute == old(self).last_triggered_minute
            },
    {
        let mut i: usize = 0;
        while i < self.warned.len()
            invariant
                i <= self.warned.len(),
                forall|j: int| 0 <= j < i ==> (#[trigger] self.warned@[j])@ != warning@,
            decreases self.warned.len() - i,
        {
            if self.warned[i] == warning {
                assert(self.warned@[i as int]@ == warning@);
                return;
            }
            i += 1;
        }
        self.warned.push(warning.clone());
        self.status_events.push(warning);
    }

    /// The index of the first period of the active profile that fires at
    /// `now`, with the profile's position.
    fn find_firing(&self, now: &TimeOfDay) -> (r: Option<(usize, usize)>)
        ensures
            r is None <==> !something_fires(self.config, *now),
            r matches Some((a, i)) ==> {
                &&& self.config.active_schedule_id is Some
                &&& is_first_with_id(
                    self.config.schedules@,
                    self.config.active_schedule_id->0,
                    a as int,
                )
                &&& is_first_firing(self.config.schedules@[a as int].periods@, *now, i as int)
            },
    {
        let a = match self.config.active_index() {
            Some(a) => a,
            None => {
                proof {
                    if something_fires(self.config, *now) {
                        let (a0, i0) = choose|a0: int, i0: int|
                            #[trigger] is_first_with_id(
                                self.config.schedules@,
                                self.config.active_schedule_id->0,
                                a0,
                            ) && self.config.active_schedule_id is Some && 0 <= i0
                                < self.config.schedules@[a0].periods.len() && fires_at(
                                #[trigger] self.config.schedules@[a0].periods@[i0],
                                *now,
                            );
                        assert(self.config.schedules@[a0].id == self.config.active_schedule_id->0);
                    }
                }
                return None;
            },
        };
        let ghost id = self.config.active_schedule_id->0;
        let periods = &self.config.schedules[a].periods;
        let mut i: usize = 0;
        while i < periods.len()
            invariant
                i <= periods.len(),
                a < self.config.schedules.len(),
                self.config.active_schedule_id == Some(id),
                is_first_with_id(self.config.schedules@, id, a as int),
                periods@ == self.config.schedules@[a as int].periods@,
                forall|j: int| 0 <= j < i ==> !fires_at(#[trigger] periods@[j], *now),
            decreases periods.len() - i,
        {
            if periods[i].matches_now(now) {
                assert(fires_at(self.config.schedules@[a as int].periods@[i as int], *now));
                assert(is_first_with_id(self.config.schedules@, self.config.active_schedule_id->0, a as int));
                return Some((a, i));
            }
            i += 1;
        }
        proof {
            if something_fires(self.config, *now) {
                let (a0, i0) = choose|a0: int, i0: int|
                    #[trigger] is_first_with_id(self.config.schedules@, id, a0)
                        && self.config.active_schedule_id is Some && 0 <= i0
                        < self.config.schedules@[a0].periods.len() && fires_at(
                        #[trigger] self.config.schedules@[a0].periods@[i0],
                        *now,
                    );
                assert(a0 == a as int) by {
                    if a0 < a as int {
                        assert(self.config.schedules@[a0].id != id);
                    } else if a0 > a as int {
                        assert(self.config.schedules@[a as int].id != id);
                    }
                }
            }
        }
        None
    }

    /// One timer tick at `now`: decides whether to dispatch, and if so marks
    /// the minute so that no other dispatch happens in it.
    pub fn tick(&mut self, now: &TimeOfDay) -> (r: Option<Trigger>)
        ensures
            tick_step(*old(self), *now, r, *final(self)),
    {
        if !self.enabled {
            return None;
        }
        let minute = now.minute_of_day();
        if self.last_triggered_minute == Some(minute) {
            return None;
        }
        match self.find_firing(now) {
            None => None,
            Some((a, i)) => {
                let period = self.config.schedules[a].periods[i].clone();
                let sound = self.config.schedules[a].sound.clone();
                let t = Trigger { period, sound };
                proof {
                    let c = self.config;
                    assert(is_first_with_id(c.schedules@, c.active_schedule_id->0, a as int));
                    assert(is_first_firing(c.schedules@[a as int].periods@, *now, i as int));
                    assert(dispatch_of(c, *now, t));
                }
                self.last_triggered_minute = Some(minute);
                Some(t)
            },
        }
    }
}

/// Within one calendar minute the engine dispatches at most once: after a
/// tick that dispatched, a later tick in the same minute (with the
/// configuration left as it was) dispatches nothing, even if a period matches
/// again.
pub proof fn lemma_one_dispatch_per_minute(
    e0: Engine,
    e1: Engine,
    e2: Engine,
    t1: TimeOfDay,
    t2: TimeOfDay,
    r1: Option<Trigger>,
    r2: Option<Trigger>,
)
    requires
        tick_step(e0, t1, r1, e1),
        tick_step(e1, t2, r2, e2),
        r1 is Some,
        t1.minute_index() == t2.minute_index(),
    ensures
        r2 is None,
        e2 == e1,
{
}

/// A tick at a time when the active profile has a firing period, on an engine
/// that is on and has not dispatched in this minute, does dispatch.
pub proof fn lemma_due_tick_dispatches(e0: Engine, t: TimeOfDay, r: Option<Trigger>, e1: Engine)
    requires
        tick_step(e0, t, r, e1),
        e0.enabled,
        e0.last_triggered_minute != Some(t.minute_index() as u64),
        something_fires(e0.config, t),
    ensures
        r is Some,
        e1.last_triggered_minute == Some(t.minute_index() as u64),
{
}

} // verus!
