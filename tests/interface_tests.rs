use wc_notice::display::{
    format_countdown, period_row_tone, period_runtime_state, shorten_path, status_tone, RowTone,
    StatusTone,
};
use wc_notice::schedule::{Period, PeriodKind};
use wc_notice::time::TimeOfDay;
use wc_notice::tray::TraySignals;
use wc_notice::window::{FrameAction, SaveDebounce, WindowTracker};

fn at(h: u32, m: u32, s: u32) -> TimeOfDay {
    TimeOfDay { hour: h, minute: m, second: s }
}

#[test]
fn countdown_formats_hours_minutes_seconds() {
    assert_eq!(format_countdown(0), "00:00:00");
    assert_eq!(format_countdown(59), "00:00:59");
    assert_eq!(format_countdown(3725), "01:02:05");
    assert_eq!(format_countdown(90061), "25:01:01");
    assert_eq!(format_countdown(360000), "100:00:00");
}

#[test]
fn countdown_of_negative_counts_carries_the_sign() {
    assert_eq!(format_countdown(-5), format!("{:02}:{:02}:{:02}", 0, 0, -5));
    assert_eq!(format_countdown(-3725), "-1:-2:-5");
    let m = i64::MIN;
    assert_eq!(
        format_countdown(m),
        format!("{:02}:{:02}:{:02}", m / 3600, (m % 3600) / 60, m % 60)
    );
}

#[test]
fn shorten_path_keeps_the_tail() {
    assert_eq!(shorten_path("abc", 3), "abc");
    assert_eq!(shorten_path("abcdef", 3), "…def");
    assert_eq!(shorten_path("路径/文件.mp3", 6), "…文件.mp3");
    assert_eq!(shorten_path("abc", 0), "…");
    assert_eq!(shorten_path("", 0), "");
}

#[test]
fn runtime_state_of_periods() {
    let p = Period::new("10:00:00", PeriodKind::Start, "x");
    assert_eq!(period_runtime_state(&p, &at(10, 0, 0)), "当前");
    assert_eq!(period_runtime_state(&p, &at(10, 0, 1)), "已过");
    assert_eq!(period_runtime_state(&p, &at(9, 59, 59)), "未到");
    let mut off = p.clone();
    off.enabled = false;
    assert_eq!(period_runtime_state(&off, &at(10, 0, 0)), "停用");
    let bad = Period::new("x", PeriodKind::Start, "x");
    assert_eq!(period_runtime_state(&bad, &at(10, 0, 0)), "未到");
}

#[test]
fn tray_latches_coalesce_and_clear() {
    let s = TraySignals::new();
    assert!(!s.take_show_request());
    s.request_show();
    s.request_show();
    assert!(s.take_show_request());
    assert!(!s.take_show_request());
    s.request_exit();
    assert!(!s.take_show_request());
    assert!(s.take_exit_request());
    assert!(!s.take_exit_request());
}

#[test]
fn restore_suppresses_minimise_detection_for_two_frames() {
    let mut w = WindowTracker::new(true);
    assert_eq!(w.frame(true), FrameAction::MinimizeToTray);
    assert_eq!(w.frame(true), FrameAction::HideTaskbarButton);
    assert_eq!(w.frame(true), FrameAction::Nothing);
    w.restore();
    assert_eq!(w.frame(true), FrameAction::Skip);
    assert_eq!(w.frame(true), FrameAction::Skip);
    assert_eq!(w.frame(false), FrameAction::Nothing);
    assert!(!w.taskbar_hidden);
    assert_eq!(w.frame(true), FrameAction::MinimizeToTray);
}

#[test]
fn without_tray_nothing_happens() {
    let mut w = WindowTracker::new(false);
    assert!(!w.minimize());
    assert_eq!(w.frame(true), FrameAction::Nothing);
    assert!(!w.was_minimized);
    let mut t = WindowTracker::new(true);
    assert!(t.minimize());
    assert!(t.was_minimized);
    assert_eq!(t.frame(true), FrameAction::HideTaskbarButton);
}

#[test]
fn save_waits_for_a_quiet_period() {
    let mut d = SaveDebounce::new();
    assert!(!d.take_due(1000));
    d.mark(1000);
    assert!(!d.take_due(1499));
    d.mark(1400);
    assert!(!d.take_due(1800));
    assert!(d.take_due(1900));
    assert!(!d.take_due(5000));
}

#[test]
fn status_tone_by_message_text() {
    assert_eq!(status_tone("保存失败: disk"), StatusTone::Danger);
    assert_eq!(status_tone("时间格式错误"), StatusTone::Danger);
    assert_eq!(status_tone("提醒已暂停"), StatusTone::Warning);
    assert_eq!(status_tone("就绪"), StatusTone::Muted);
    assert_eq!(status_tone(""), StatusTone::Muted);
}

#[test]
fn row_tone_of_periods() {
    let s = Period::new("10:00:00", PeriodKind::Start, "s");
    let e = Period::new("10:00:00", PeriodKind::End, "e");
    assert_eq!(period_row_tone(&s, &at(10, 0, 0)), RowTone::StartCurrent);
    assert_eq!(period_row_tone(&s, &at(9, 0, 0)), RowTone::Start);
    assert_eq!(period_row_tone(&e, &at(10, 0, 0)), RowTone::EndCurrent);
    assert_eq!(period_row_tone(&e, &at(9, 0, 0)), RowTone::End);
    assert_eq!(period_row_tone(&e, &at(10, 0, 1)), RowTone::Past);
    let mut off = s.clone();
    off.enabled = false;
    assert_eq!(period_row_tone(&off, &at(9, 0, 0)), RowTone::Past);
}
