use auriya::telemetry::{
    foreground_from_dump, is_pid_valid, parse_pid_from_str, parse_pkg_from_activity_line, parse_pkg_from_window_line,
    power_from_dump, saver_setting_from,
};

#[test]
fn pid_after_marker() {
    assert_eq!(parse_pid_from_str("ProcessRecord{a1 pid=4242 com.x}"), Some(4242));
    assert_eq!(parse_pid_from_str("pid=0"), None);
    assert_eq!(parse_pid_from_str("pid=x12"), None);
    assert_eq!(parse_pid_from_str("pid=99999999999"), None);
    assert_eq!(parse_pid_from_str("no marker 123"), None);
    assert_eq!(parse_pid_from_str("pid=7 pid=8"), Some(7));
}

#[test]
fn package_from_activity_line() {
    assert_eq!(
        parse_pkg_from_activity_line("  mResumedActivity: ActivityRecord{1a2b u0 com.game.x/.MainActivity t42}"),
        Some("com.game.x".to_string())
    );
    assert_eq!(parse_pkg_from_activity_line("ActivityRecord{1 u0 launcher/.Home}"), None);
    assert_eq!(parse_pkg_from_activity_line("ActivityRecord{1 u0 "), None);
    assert_eq!(parse_pkg_from_activity_line("nothing here"), None);
}

#[test]
fn package_from_window_line() {
    assert_eq!(
        parse_pkg_from_window_line("  mCurrentFocus=Window{5d2 u0 com.game.x/com.game.x.Main}"),
        None
    );
    assert_eq!(
        parse_pkg_from_window_line("mFocusedApp=ActivityRecord u0 com.game.x/.Main {t1}"),
        Some("com.game.x".to_string())
    );
    assert_eq!(parse_pkg_from_window_line("a b/c"), None);
}

#[test]
fn power_state_from_dump() {
    let p = power_from_dump("mWakefulness=Awake\nmBatterySaverEnabled=false", None);
    assert!(p.screen_awake);
    assert!(!p.battery_saver);
    let p = power_from_dump("mWakefulness=Asleep\nBattery Saver: ON", None);
    assert!(!p.screen_awake);
    assert!(p.battery_saver);
    let p = power_from_dump("mScreenOn=true Battery Saver: ON", Some(false));
    assert!(p.screen_awake);
    assert!(!p.battery_saver);
    assert_eq!(saver_setting_from("1\n"), Some(true));
    assert_eq!(saver_setting_from(" 0 "), Some(false));
    assert_eq!(saver_setting_from("null"), None);
    assert!(is_pid_valid(12, true));
    assert!(!is_pid_valid(0, true));
    assert!(!is_pid_valid(12, false));
}

#[test]
fn foreground_from_activity_dump() {
    let dump = "ACTIVITY MANAGER\n  mCurrentFocus=Window{1 u0 com.focus.app/com.focus.app.Main}\n  mFocusedWindow x u0 com.focus.app/.Main {x}\n  mResumedActivity: ActivityRecord{9 u0 com.game.x/.Main t3}\n";
    assert_eq!(foreground_from_dump(dump), Some("com.game.x".to_string()));
    let dump2 = "mCurrentFocus=Window{1}\nmCurrentFocus=Window u0 com.focus.app/.Main {2}\n";
    assert_eq!(foreground_from_dump(dump2), Some("com.focus.app".to_string()));
    assert_eq!(foreground_from_dump(""), None);
}

#[test]
fn total_ram_from_meminfo() {
    assert_eq!(
        auriya::telemetry::total_ram_mb_from("MemFree: 1 kB\nMemTotal:       7864320 kB\n"),
        Some(7680)
    );
    assert_eq!(auriya::telemetry::total_ram_mb_from("MemTotal:\nMemTotal: 2048 kB"), Some(2));
    assert_eq!(auriya::telemetry::total_ram_mb_from("MemTotal: lots"), None);
    assert_eq!(auriya::telemetry::total_ram_mb_from(""), None);
}
