use wc_notice::engine::Engine;
use wc_notice::schedule::{AppConfig, Period, PeriodKind, ScheduleProfile, SoundSource};
use wc_notice::time::TimeOfDay;

fn at(h: u32, m: u32, s: u32) -> TimeOfDay {
    TimeOfDay { hour: h, minute: m, second: s }
}

fn config_with(periods: Vec<Period>) -> AppConfig {
    let mut p = ScheduleProfile::empty(1, "p");
    p.periods = periods;
    AppConfig {
        active_schedule_id: Some(1),
        next_schedule_id: 2,
        schedules: vec![p],
        autostart: true,
    }
}

#[test]
fn new_engine_is_on_and_empty() {
    let mut e = Engine::new(AppConfig::default_config());
    assert!(e.is_enabled());
    assert!(e.take_status_events().is_empty());
    assert_eq!(e.last_triggered_minute, None);
}

#[test]
fn toggling_twice_round_trips() {
    let mut e = Engine::new(AppConfig::default_config());
    let start = e.is_enabled();
    assert!(!e.toggle_enabled());
    assert!(!e.is_enabled());
    assert!(e.toggle_enabled());
    assert_eq!(e.is_enabled(), start);
}

#[test]
fn a_minute_dispatches_at_most_once() {
    let mut e = Engine::new(config_with(vec![Period::new(
        "10:10:00",
        PeriodKind::Start,
        "a",
    )]));
    let first = e.tick(&at(10, 10, 0)).unwrap();
    assert_eq!(first.period.name, "a");
    assert_eq!(e.last_triggered_minute, Some(610));
    // The clock stepped back and the same second is sampled again.
    assert!(e.tick(&at(10, 10, 0)).is_none());
    assert!(e.tick(&at(10, 10, 30)).is_none());
}

#[test]
fn two_periods_in_one_minute_fire_only_the_first() {
    let mut e = Engine::new(config_with(vec![
        Period::new("10:10:00", PeriodKind::Start, "a"),
        Period::new("10:10:30", PeriodKind::End, "b"),
        Period::new("10:11:00", PeriodKind::End, "c"),
    ]));
    assert_eq!(e.tick(&at(10, 10, 0)).unwrap().period.name, "a");
    assert!(e.tick(&at(10, 10, 30)).is_none());
    assert_eq!(e.tick(&at(10, 11, 0)).unwrap().period.name, "c");
}

#[test]
fn coincident_periods_dispatch_the_first_in_sequence() {
    let mut e = Engine::new(config_with(vec![
        Period::new("10:10:00", PeriodKind::End, "end"),
        Period::new("10:10:00", PeriodKind::Start, "start"),
    ]));
    let t = e.tick(&at(10, 10, 0)).unwrap();
    assert_eq!(t.period.name, "end");
    assert_eq!(t.sound.end, SoundSource::Builtin(wc_notice::schedule::BuiltinSound::BellEnd));
}

#[test]
fn no_dispatch_when_paused_or_off_time() {
    let mut e = Engine::new(config_with(vec![Period::new(
        "10:10:00",
        PeriodKind::Start,
        "a",
    )]));
    assert!(e.tick(&at(10, 10, 1)).is_none());
    assert_eq!(e.last_triggered_minute, None);
    e.toggle_enabled();
    assert!(e.tick(&at(10, 10, 0)).is_none());
    e.toggle_enabled();
    assert!(e.tick(&at(10, 10, 0)).is_some());
}

#[test]
fn no_dispatch_without_an_active_profile() {
    let mut c = config_with(vec![Period::new("10:10:00", PeriodKind::Start, "a")]);
    c.active_schedule_id = None;
    let mut e = Engine::new(c);
    assert!(e.tick(&at(10, 10, 0)).is_none());
}

#[test]
fn updated_config_takes_effect_on_next_tick() {
    let mut e = Engine::new(config_with(vec![]));
    assert!(e.tick(&at(9, 0, 0)).is_none());
    e.update_config(config_with(vec![Period::new("09:00:01", PeriodKind::Start, "x")]));
    assert_eq!(e.tick(&at(9, 0, 1)).unwrap().period.name, "x");
}

#[test]
fn warnings_are_surfaced_once_each() {
    let mut e = Engine::new(AppConfig::default_config());
    e.report_warning("w1".to_string());
    e.report_warning("w1".to_string());
    e.report_warning("w2".to_string());
    assert_eq!(e.take_status_events(), vec!["w1".to_string(), "w2".to_string()]);
    assert!(e.take_status_events().is_empty());
    e.report_warning("w1".to_string());
    assert!(e.take_status_events().is_empty());
}
