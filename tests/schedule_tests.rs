use wc_notice::schedule::{
    default_autostart, AppConfig, BuiltinSound, Period, PeriodInputError, PeriodKind,
    ScheduleProfile, SoundSlots, SoundSource,
};
use wc_notice::time::TimeOfDay;

fn at(h: u32, m: u32, s: u32) -> TimeOfDay {
    TimeOfDay { hour: h, minute: m, second: s }
}

fn profile(id: u64, periods: Vec<Period>) -> ScheduleProfile {
    let mut p = ScheduleProfile::empty(id, "p");
    p.periods = periods;
    p
}

fn times(p: &ScheduleProfile) -> Vec<String> {
    p.periods.iter().map(|x| x.time.clone()).collect()
}

#[test]
fn labels_and_default_sounds() {
    assert_eq!(PeriodKind::Start.label(), "开始");
    assert_eq!(PeriodKind::End.label(), "结束");
    assert_eq!(PeriodKind::Start.default_builtin_sound(), BuiltinSound::BellStart);
    assert_eq!(PeriodKind::End.default_builtin_sound(), BuiltinSound::BellEnd);
    assert_eq!(BuiltinSound::BellStart.label(), "bell_start.mp3");
    assert_eq!(BuiltinSound::BellEnd.label(), "bell_end.mp3");
    assert_eq!(BuiltinSound::Fun.label(), "bell_other.mp3");
    assert_eq!(
        BuiltinSound::all(),
        vec![BuiltinSound::BellStart, BuiltinSound::BellEnd, BuiltinSound::Fun]
    );
    assert_eq!(
        SoundSource::default_for_kind(PeriodKind::End),
        SoundSource::Builtin(BuiltinSound::BellEnd)
    );
    let slots = SoundSlots::default();
    assert_eq!(slots.start, SoundSource::Builtin(BuiltinSound::BellStart));
    assert_eq!(slots.end, SoundSource::Builtin(BuiltinSound::BellEnd));
    assert!(default_autostart());
}

#[test]
fn period_new_is_enabled() {
    let p = Period::new("08:00:00", PeriodKind::Start, "a");
    assert_eq!(p.time, "08:00:00");
    assert_eq!(p.kind, PeriodKind::Start);
    assert_eq!(p.name, "a");
    assert!(p.enabled);
}

#[test]
fn default_preset_has_sixteen_periods() {
    let p = ScheduleProfile::default_preset(7);
    assert_eq!(p.id, 7);
    assert_eq!(p.name, "默认时间表");
    assert_eq!(p.periods.len(), 16);
    assert_eq!(p.periods[0].time, "08:00:00");
    assert_eq!(p.periods[0].name, "第1节开始");
    assert_eq!(p.periods[7].name, "上午结束");
    assert_eq!(p.periods[15].time, "21:30:00");
    assert_eq!(p.periods[15].kind, PeriodKind::End);
    assert!(p.periods.iter().all(|x| x.enabled));
    assert_eq!(p.sound, SoundSlots::default());
}

#[test]
fn matches_now_only_at_the_exact_second() {
    let p = Period::new("10:10:00", PeriodKind::Start, "x");
    assert!(p.matches_now(&at(10, 10, 0)));
    assert!(!p.matches_now(&at(10, 10, 1)));
    assert!(!p.matches_now(&at(10, 11, 0)));
    assert!(!p.matches_now(&at(11, 10, 0)));
    let short = Period::new("7:15", PeriodKind::Start, "x");
    assert!(short.matches_now(&at(7, 15, 0)));
    let mut off = Period::new("10:10:00", PeriodKind::Start, "x");
    off.enabled = false;
    assert!(!off.matches_now(&at(10, 10, 0)));
    let bad = Period::new("10:61:00", PeriodKind::Start, "x");
    assert!(!bad.matches_now(&at(10, 61, 0)));
}

#[test]
fn next_period_is_the_earliest_after_now() {
    let p = ScheduleProfile::default_preset(1);
    assert_eq!(p.next_period(&at(0, 0, 0)).unwrap().name, "第1节开始");
    assert_eq!(p.next_period(&at(8, 0, 0)).unwrap().name, "第1节结束");
    assert_eq!(p.next_period(&at(12, 0, 0)).unwrap().name, "第5节开始");
    assert_eq!(p.next_period(&at(21, 29, 59)).unwrap().name, "晚自习结束");
    assert!(p.next_period(&at(21, 30, 0)).is_none());
    assert!(p.next_period(&at(23, 59, 59)).is_none());
}

#[test]
fn next_period_skips_disabled_and_unparsable_and_ignores_order() {
    let mut a = Period::new("09:00:00", PeriodKind::Start, "a");
    a.enabled = false;
    let b = Period::new("bad", PeriodKind::Start, "b");
    let c = Period::new("11:00:00", PeriodKind::Start, "c");
    let d = Period::new("10:00:00", PeriodKind::End, "d");
    let e = Period::new("10:00:00", PeriodKind::End, "e");
    let p = profile(1, vec![a, b, c, d, e]);
    assert_eq!(p.next_period(&at(8, 0, 0)).unwrap().name, "d");
    assert_eq!(p.next_period(&at(10, 0, 0)).unwrap().name, "c");
    assert!(profile(2, vec![]).next_period(&at(0, 0, 0)).is_none());
}

#[test]
fn current_status_is_the_latest_reached() {
    let p = ScheduleProfile::default_preset(1);
    assert_eq!(p.current_status(&at(7, 59, 59)), "待机");
    assert_eq!(p.current_status(&at(8, 0, 0)), "第1节开始");
    assert_eq!(p.current_status(&at(12, 0, 0)), "上午结束");
    assert_eq!(p.current_status(&at(23, 0, 0)), "晚自习结束");
    assert_eq!(profile(2, vec![]).current_status(&at(12, 0, 0)), "待机");
}

#[test]
fn current_status_skips_disabled_and_takes_last_of_equal_times() {
    let a = Period::new("08:00:00", PeriodKind::Start, "a");
    let b = Period::new("08:00:00", PeriodKind::End, "b");
    let mut c = Period::new("09:00:00", PeriodKind::Start, "c");
    c.enabled = false;
    let p = profile(1, vec![a, b, c]);
    assert_eq!(p.current_status(&at(9, 30, 0)), "b");
}

#[test]
fn sort_periods_orders_by_time_text() {
    let mut p = profile(
        1,
        vec![
            Period::new("10:00:00", PeriodKind::Start, "c"),
            Period::new("08:00:00", PeriodKind::Start, "a"),
            Period::new("09:00:00", PeriodKind::Start, "b1"),
            Period::new("09:00:00", PeriodKind::End, "b2"),
        ],
    );
    p.sort_periods();
    assert_eq!(times(&p), vec!["08:00:00", "09:00:00", "09:00:00", "10:00:00"]);
    let names: Vec<String> = p.periods.iter().map(|x| x.name.clone()).collect();
    assert_eq!(names, vec!["a", "b1", "b2", "c"]);
}

#[test]
fn add_period_normalises_trims_and_sorts() {
    let mut p = ScheduleProfile::default_preset(1);
    assert_eq!(p.add_period("9:5", PeriodKind::Start, "  课间  "), Ok(()));
    assert_eq!(p.periods.len(), 17);
    let added = p.periods.iter().position(|x| x.name == "课间").unwrap();
    assert_eq!(p.periods[added].time, "09:05:00");
    assert!(p.periods[added].enabled);
    let t = times(&p);
    let mut sorted = t.clone();
    sorted.sort();
    assert_eq!(t, sorted);
}

#[test]
fn add_period_reports_each_error() {
    let mut p = ScheduleProfile::default_preset(1);
    assert_eq!(
        p.add_period("25:00", PeriodKind::Start, "x"),
        Err(PeriodInputError::InvalidTime)
    );
    assert_eq!(
        p.add_period("10:00", PeriodKind::Start, "   "),
        Err(PeriodInputError::EmptyName)
    );
    assert_eq!(
        p.add_period("bad", PeriodKind::Start, ""),
        Err(PeriodInputError::InvalidTime)
    );
    assert_eq!(p.periods.len(), 16);
}

#[test]
fn editing_a_time_to_an_invalid_value_is_rejected() {
    let mut p = ScheduleProfile::default_preset(1);
    assert!(!p.set_period_time(0, "23:99"));
    assert_eq!(p.periods[0].time, "08:00:00");
    assert_eq!(p.periods.len(), 16);
}

#[test]
fn editing_a_time_normalises_and_resorts() {
    let mut p = ScheduleProfile::default_preset(1);
    assert!(p.set_period_time(0, "22:0"));
    assert_eq!(p.periods[15].time, "22:00:00");
    assert_eq!(p.periods[15].name, "第1节开始");
    assert_eq!(p.periods[0].time, "08:45:00");
}

#[test]
fn remove_period_returns_it() {
    let mut p = ScheduleProfile::default_preset(1);
    let removed = p.remove_period(1);
    assert_eq!(removed.name, "第1节结束");
    assert_eq!(p.periods.len(), 15);
    assert_eq!(p.periods[1].time, "08:55:00");
}

fn two_profiles() -> AppConfig {
    let mut a = ScheduleProfile::empty(1, "A");
    a.periods.push(Period::new("08:00:00", PeriodKind::Start, "a"));
    let b = ScheduleProfile::empty(2, "B");
    AppConfig {
        active_schedule_id: Some(1),
        next_schedule_id: 3,
        schedules: vec![a, b],
        autostart: true,
    }
}

#[test]
fn default_config_holds_the_preset() {
    let c = AppConfig::default_config();
    assert_eq!(c.active_schedule_id, Some(1));
    assert_eq!(c.next_schedule_id, 2);
    assert_eq!(c.schedules.len(), 1);
    assert_eq!(c.schedules[0].periods.len(), 16);
    assert!(c.autostart);
    let d = AppConfig::default();
    assert_eq!(d.active_schedule_id, Some(1));
    assert_eq!(d.schedules[0].name, "默认时间表");
}

#[test]
fn active_schedule_follows_the_reference() {
    let mut c = two_profiles();
    assert_eq!(c.active_schedule().unwrap().name, "A");
    assert_eq!(c.active_index(), Some(0));
    c.active_schedule_id = Some(2);
    assert_eq!(c.active_schedule().unwrap().name, "B");
    c.active_schedule_id = Some(9);
    assert!(c.active_schedule().is_none());
    c.active_schedule_id = None;
    assert!(c.active_schedule().is_none());
}

#[test]
fn active_schedule_mut_edits_in_place() {
    let mut c = two_profiles();
    c.active_schedule_id = Some(2);
    c.active_schedule_mut().unwrap().name = "Renamed".to_string();
    assert_eq!(c.schedules[1].name, "Renamed");
    assert_eq!(c.schedules[0].name, "A");
    c.active_schedule_id = None;
    assert!(c.active_schedule_mut().is_none());
}

#[test]
fn removing_the_active_profile_moves_the_reference_on() {
    let mut c = two_profiles();
    let removed = c.remove_active_schedule().unwrap();
    assert_eq!(removed.id, 1);
    assert_eq!(c.active_schedule_id, Some(2));
    assert_eq!(c.schedules.len(), 1);
    assert!(c.schedules.iter().all(|s| s.id != 1));
    let last = c.remove_active_schedule().unwrap();
    assert_eq!(last.id, 2);
    assert_eq!(c.active_schedule_id, None);
    assert!(c.remove_active_schedule().is_none());
}

#[test]
fn removing_with_a_dangling_reference_changes_nothing() {
    let mut c = two_profiles();
    c.active_schedule_id = Some(5);
    assert!(c.remove_active_schedule().is_none());
    assert_eq!(c.schedules.len(), 2);
    assert_eq!(c.active_schedule_id, Some(5));
}

#[test]
fn create_empty_schedule_assigns_fresh_ids() {
    let mut c = two_profiles();
    let id = c.create_empty_schedule("C".to_string());
    assert_eq!(id, 3);
    assert_eq!(c.next_schedule_id, 4);
    assert_eq!(c.active_schedule_id, Some(3));
    assert_eq!(c.schedules[2].name, "C");
    assert!(c.schedules[2].periods.is_empty());
    c.remove_active_schedule();
    let again = c.create_empty_schedule("D".to_string());
    assert_eq!(again, 4);
}

#[test]
fn set_active_schedule_accepts_only_existing_ids() {
    let mut c = two_profiles();
    c.set_active_schedule(Some(2));
    assert_eq!(c.active_schedule_id, Some(2));
    c.set_active_schedule(Some(42));
    assert_eq!(c.active_schedule_id, Some(1));
    c.set_active_schedule(None);
    assert_eq!(c.active_schedule_id, Some(1));
    let mut empty = AppConfig {
        active_schedule_id: Some(1),
        next_schedule_id: 1,
        schedules: vec![],
        autostart: false,
    };
    empty.set_active_schedule(Some(1));
    assert_eq!(empty.active_schedule_id, None);
}

#[test]
fn ensure_active_schedule_repairs_only_dangling_references() {
    let mut c = two_profiles();
    c.active_schedule_id = Some(2);
    c.ensure_active_schedule();
    assert_eq!(c.active_schedule_id, Some(2));
    c.active_schedule_id = Some(77);
    c.ensure_active_schedule();
    assert_eq!(c.active_schedule_id, Some(1));
    c.active_schedule_id = None;
    c.ensure_active_schedule();
    assert_eq!(c.active_schedule_id, Some(1));
}

#[test]
fn loading_nothing_gives_the_preset_to_be_saved() {
    let (c, save) = AppConfig::from_loaded(None);
    assert!(save);
    assert_eq!(c.schedules.len(), 1);
    assert_eq!(c.schedules[0].periods.len(), 16);
    assert_eq!(c.active_schedule_id, Some(1));
}

#[test]
fn loading_a_config_repairs_its_reference() {
    let mut stored = two_profiles();
    stored.active_schedule_id = Some(9);
    let (c, save) = AppConfig::from_loaded(Some(stored));
    assert!(!save);
    assert_eq!(c.active_schedule_id, Some(1));
    assert_eq!(c.schedules.len(), 2);
}
