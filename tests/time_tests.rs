use wc_notice::schedule::{Period, PeriodKind};
use wc_notice::time::{normalize_time_str, parse_clock, TimeOfDay};

fn norm(s: &str) -> Option<String> {
    normalize_time_str(s)
}

#[test]
fn normalize_keeps_canonical_times() {
    assert_eq!(norm("08:05:09"), Some("08:05:09".to_string()));
    assert_eq!(norm("23:59:59"), Some("23:59:59".to_string()));
    assert_eq!(norm("00:00:00"), Some("00:00:00".to_string()));
}

#[test]
fn normalize_is_idempotent() {
    for input in ["9:5", "7:3:2", " 12 : 30 ", "+1:+2:+3"] {
        let once = norm(input).unwrap();
        assert_eq!(norm(&once), Some(once.clone()));
    }
}

#[test]
fn normalize_pads_hour_and_minute() {
    assert_eq!(norm("9:5"), Some("09:05:00".to_string()));
    assert_eq!(norm("7:3:2"), Some("07:03:02".to_string()));
}

#[test]
fn normalize_rejects_out_of_range() {
    assert_eq!(norm("24:00"), None);
    assert_eq!(norm("9:60"), None);
    assert_eq!(norm("23:99"), None);
    assert_eq!(norm("09:05:60"), None);
    assert_eq!(norm("99999999999:00"), None);
}

#[test]
fn normalize_rejects_malformed_input() {
    assert_eq!(norm(""), None);
    assert_eq!(norm("12"), None);
    assert_eq!(norm("1:2:3:4"), None);
    assert_eq!(norm("a:b"), None);
    assert_eq!(norm("-1:00"), None);
    assert_eq!(norm(":30"), None);
    assert_eq!(norm("+:30"), None);
}

#[test]
fn normalize_trims_fields_and_accepts_plus_sign() {
    assert_eq!(norm("  7:03  "), Some("07:03:00".to_string()));
    assert_eq!(norm("+9: 5"), Some("09:05:00".to_string()));
    assert_eq!(norm("007:0005:0009"), Some("07:05:09".to_string()));
    assert_eq!(norm("\t1:2\n"), Some("01:02:00".to_string()));
}

#[test]
fn parse_clock_reads_seconds_and_minutes_forms() {
    assert_eq!(
        parse_clock("08:30:15"),
        Some(TimeOfDay { hour: 8, minute: 30, second: 15 })
    );
    assert_eq!(
        parse_clock("7:15"),
        Some(TimeOfDay { hour: 7, minute: 15, second: 0 })
    );
    assert_eq!(parse_clock("24:00:00"), None);
    assert_eq!(parse_clock("17:60"), None);
    assert_eq!(parse_clock("noon"), None);
}

#[test]
fn naive_time_of_a_period() {
    let p = Period::new("21:30:00", PeriodKind::End, "x");
    assert_eq!(
        p.naive_time(),
        Some(TimeOfDay { hour: 21, minute: 30, second: 0 })
    );
    let bad = Period::new("not a time", PeriodKind::End, "x");
    assert_eq!(bad.naive_time(), None);
}

#[test]
fn time_of_day_construction_and_measures() {
    assert_eq!(TimeOfDay::new(24, 0, 0), None);
    assert_eq!(TimeOfDay::new(0, 60, 0), None);
    assert_eq!(TimeOfDay::new(0, 0, 60), None);
    let t = TimeOfDay::new(10, 11, 12).unwrap();
    assert_eq!(t.minute_of_day(), 611);
    assert_eq!(t.seconds_of_day(), 36672);
    let u = TimeOfDay::new(10, 11, 13).unwrap();
    assert!(t.is_before(&u));
    assert!(!u.is_before(&t));
    assert!(!t.is_before(&t));
    assert!(t.same_second(&t));
    assert!(!t.same_second(&u));
}
