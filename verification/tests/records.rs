//! Configuration, versions, the update decision, and the bookkeeping
//! records around the gateway.
use dailycraft::config::AppConfig;
use dailycraft::version::{
    parse_version, compare_versions, evaluate_update_check, set_update_preference, UpdatePrefs,
    valid_date_exec,
};
use dailycraft::services::{
    ScreenshotService, StorageService, WindowTracker, InputTracker, rect_from_bounds,
    choose_capture, CaptureChoice, WindowRect, app_name_from_path, get_app_config,
    save_app_config, ScreenshotResponse, ActiveWindowInfo, WindowInfo,
};
use dailycraft::segment::{StateSegment, ActivityLevel, EventType};
use dailycraft::dashboard::{diary_summary, tally_dashboard, DayCount, render_diary_markdown};
use std::cmp::Ordering;

#[test]
fn default_config_values() {
    let c = AppConfig::default();
    assert_eq!(c.idle_threshold_sec, 300);
    assert_eq!(c.poll_interval_ms, 1000);
    assert!(!c.screenshot_enabled);
    assert_eq!(c.screenshot_trigger_sec, 30);
    assert_eq!(c.screenshot_interval_sec, 60);
    assert_eq!(c.screenshot_mode, "full_screen");
    assert_eq!(c.screenshot_hotkey, "Alt+]");
    assert_eq!(c.screenshot_blacklist, vec!["1Password", "Bitwarden", "KeePass"]);
    let dir = String::from_utf8(c.data_dir.clone()).unwrap();
    assert!(dir.ends_with("DailyCraft/data"));
}

#[test]
fn config_paths() {
    let mut c = AppConfig::default();
    c.data_dir = b"/data".to_vec();
    assert_eq!(c.get_date_dir(b"2024-05-01"), b"/data/2024-05-01".to_vec());
    assert_eq!(
        c.get_raw_events_path_by_date(b"2024-05-01"),
        b"/data/2024-05-01/raw_events.jsonl".to_vec()
    );
    let today_dir = c.get_today_dir();
    assert!(today_dir.starts_with(b"/data/"));
    let raw = c.get_raw_events_path();
    assert!(raw.ends_with(b"/raw_events.jsonl"));
    let seg = c.get_segments_path();
    assert!(seg.ends_with(b"/state_segments.json"));
    let shots = c.get_screenshots_dir();
    assert!(shots.ends_with(b"/screenshots"));
}

#[test]
fn blacklist_is_case_insensitive_substring() {
    let c = AppConfig::default();
    assert!(c.is_screenshot_blacklisted("1Password 8"));
    assert!(c.is_screenshot_blacklisted("my BITWARDEN vault"));
    assert!(c.is_screenshot_blacklisted("keepassxc"));
    assert!(!c.is_screenshot_blacklisted("Firefox"));
    assert!(!c.is_screenshot_blacklisted(""));
}

#[test]
fn version_parsing() {
    let (nums, weight, pre) = parse_version(b"v1.2.3");
    assert_eq!(nums, vec![1, 2, 3]);
    assert_eq!(weight, 100);
    assert_eq!(pre, 0);
    let (nums, weight, pre) = parse_version(b"0.2.0-beta.2");
    assert_eq!(nums, vec![0, 2, 0]);
    assert_eq!(weight, 2);
    assert_eq!(pre, 2);
    let (nums, weight, pre) = parse_version(b"1.0-RC1");
    assert_eq!(nums, vec![1, 0]);
    assert_eq!(weight, 3);
    assert_eq!(pre, 1);
    let (nums, weight, _) = parse_version(b"2.x.7-alpha");
    assert_eq!(nums, vec![2, 7]);
    assert_eq!(weight, 1);
}

#[test]
fn version_comparison() {
    assert_eq!(compare_versions(b"0.2.1", b"0.2.0"), Ordering::Greater);
    assert_eq!(compare_versions(b"0.2.0", b"0.2.1"), Ordering::Less);
    assert_eq!(compare_versions(b"1.2", b"1.2.0"), Ordering::Equal);
    assert_eq!(compare_versions(b"1.0.0-beta", b"1.0.0"), Ordering::Less);
    assert_eq!(compare_versions(b"1.0.0-rc1", b"1.0.0-beta2"), Ordering::Greater);
    assert_eq!(compare_versions(b"1.0.0-beta-1", b"1.0.0-beta-2"), Ordering::Less);
    assert_eq!(compare_versions(b"v2.0.0", b"1.9.9"), Ordering::Greater);
}

#[test]
fn date_validation() {
    assert!(valid_date_exec(b"2024-02-29"));
    assert!(!valid_date_exec(b"2023-02-29"));
    assert!(valid_date_exec(b"2000-02-29"));
    assert!(!valid_date_exec(b"1900-02-29"));
    assert!(!valid_date_exec(b"2024-13-01"));
    assert!(!valid_date_exec(b"2024-00-10"));
    assert!(!valid_date_exec(b"2024-04-31"));
    assert!(valid_date_exec(b"2024-04-30"));
    assert!(!valid_date_exec(b"2024-4-30"));
    assert!(!valid_date_exec(b"20240430"));
}

#[test]
fn update_check_decision() {
    let none = UpdatePrefs { ignored_version: None, remind_after: None };
    // Already current.
    let r = evaluate_update_check(
        b"1.2.0", b"v1.2.0", b"n", b"b", b"u", b"p", &none, false, b"2024-05-01",
    );
    assert!(!r.has_update);
    assert_eq!(r.skipped_reason.unwrap(), b"already up to date".to_vec());
    assert!(r.release_info.is_none());
    assert_eq!(r.latest_version.unwrap(), b"1.2.0".to_vec());
    // A newer release is offered, with the derived download address.
    let r = evaluate_update_check(
        b"1.2.0", b"v1.3.0", b"name", b"notes", b"html", b"when", &none, false, b"2024-05-01",
    );
    assert!(r.has_update);
    let ri = r.release_info.unwrap();
    assert_eq!(ri.tag_name, b"v1.3.0".to_vec());
    assert_eq!(
        ri.download_url,
        b"https://github.com/Chujie-cre/DailyCraft/releases/download/v1.3.0/dailycraft_1.3.0_x64-setup.exe"
            .to_vec()
    );
    // An ignored version is skipped, unless forced.
    let prefs = UpdatePrefs { ignored_version: Some(b"1.3.0".to_vec()), remind_after: None };
    let r = evaluate_update_check(
        b"1.2.0", b"v1.3.0", b"n", b"b", b"u", b"p", &prefs, false, b"2024-05-01",
    );
    assert!(!r.has_update);
    assert_eq!(r.skipped_reason.unwrap(), b"version ignored by user".to_vec());
    let r = evaluate_update_check(
        b"1.2.0", b"v1.3.0", b"n", b"b", b"u", b"p", &prefs, true, b"2024-05-01",
    );
    assert!(r.has_update);
    // A pending reminder defers the offer until its date.
    let prefs = UpdatePrefs {
        ignored_version: None,
        remind_after: Some(b"2024-06-01".to_vec()),
    };
    let r = evaluate_update_check(
        b"1.2.0", b"v1.3.0", b"n", b"b", b"u", b"p", &prefs, false, b"2024-05-01",
    );
    assert!(!r.has_update);
    assert_eq!(r.skipped_reason.unwrap(), b"remind later".to_vec());
    let r = evaluate_update_check(
        b"1.2.0", b"v1.3.0", b"n", b"b", b"u", b"p", &prefs, false, b"2024-06-01",
    );
    assert!(r.has_update);
    // A malformed reminder date is disregarded.
    let prefs = UpdatePrefs {
        ignored_version: None,
        remind_after: Some(b"2024-13-99".to_vec()),
    };
    let r = evaluate_update_check(
        b"1.2.0", b"v1.3.0", b"n", b"b", b"u", b"p", &prefs, false, b"2024-05-01",
    );
    assert!(r.has_update);
}

#[test]
fn update_preferences() {
    let mut p = UpdatePrefs { ignored_version: None, remind_after: None };
    set_update_preference(&mut p, b"ignore", Some(b"1.3.0".to_vec()), b"2024-05-02".to_vec())
        .unwrap();
    assert_eq!(p.ignored_version.as_deref(), Some(&b"1.3.0"[..]));
    assert!(p.remind_after.is_none());
    set_update_preference(&mut p, b"remind_tomorrow", None, b"2024-05-02".to_vec()).unwrap();
    assert!(p.ignored_version.is_none());
    assert_eq!(p.remind_after.as_deref(), Some(&b"2024-05-02"[..]));
    set_update_preference(&mut p, b"clear", None, b"x".to_vec()).unwrap();
    assert!(p.ignored_version.is_none() && p.remind_after.is_none());
    assert!(set_update_preference(&mut p, b"shrug", None, b"x".to_vec()).is_err());
}

#[test]
fn screenshot_naming_and_choice() {
    let svc = ScreenshotService::new(b"/shots".to_vec());
    let name = svc.generate_filename("Google Chrome/θ".as_bytes());
    let s = String::from_utf8(name).unwrap();
    assert!(s.starts_with("/shots/"));
    assert!(s.ends_with(".jpg"));
    assert!(s.contains("_Google_Chrome_"));
    assert!(!s.contains('θ'));
    // Long names are capped at thirty bytes.
    let name = svc.generate_filename(&[b'a'; 100]);
    let s = String::from_utf8(name).unwrap();
    let tail = s.rsplit('_').next().unwrap();
    assert_eq!(tail, format!("{}.jpg", "a".repeat(30)));

    let rect = rect_from_bounds(10, 20, 110, 220);
    assert_eq!(rect, WindowRect { x: 10, y: 20, width: 100, height: 200 });
    let inverted = rect_from_bounds(10, 20, 5, 10);
    assert_eq!(inverted.width, 0);
    assert_eq!(inverted.height, 0);
    assert!(matches!(choose_capture(true, Some(rect)), CaptureChoice::Area(_)));
    assert!(matches!(choose_capture(true, Some(inverted)), CaptureChoice::FullScreen));
    assert!(matches!(choose_capture(false, Some(rect)), CaptureChoice::FullScreen));
    assert!(matches!(choose_capture(true, None), CaptureChoice::FullScreen));
}

#[test]
fn storage_and_window_records() {
    let mut c = AppConfig::default();
    c.data_dir = b"/d".to_vec();
    let storage = StorageService::new(c);
    assert_eq!(storage.get_data_dir(), b"/d".to_vec());
    let (day_dir, shots_dir) = storage.init_today();
    assert!(day_dir.starts_with(b"/d/"));
    assert!(shots_dir.ends_with(b"/screenshots"));

    let _tracker = WindowTracker::new();
    assert_eq!(app_name_from_path(b"C:\\Programs\\chrome.exe"), b"chrome".to_vec());
    assert_eq!(app_name_from_path(b"/usr/bin/code-1.2.exe"), b"code-1.2".to_vec());
    assert_eq!(app_name_from_path(b"bare"), b"bare".to_vec());
    assert_eq!(app_name_from_path(b"/opt/.hidden"), b".hidden".to_vec());

    let info = WindowInfo {
        app_name: b"chrome".to_vec(),
        window_title: b"tab".to_vec(),
        process_id: 7,
        exe_path: b"/x/chrome.exe".to_vec(),
    };
    let a = ActiveWindowInfo::of_window(info);
    assert_eq!(a.app_name, b"chrome".to_vec());
    assert_eq!(a.window_title, b"tab".to_vec());

    let r = ScreenshotResponse::ok(b"/p.jpg".to_vec());
    assert!(r.success && r.error.is_none());
    let r = ScreenshotResponse::failed(b"no screen".to_vec());
    assert!(!r.success && r.filepath.is_none());
}

#[test]
fn config_round_trip_views() {
    let mut c = AppConfig::default();
    let view = get_app_config(&c);
    assert_eq!(view.poll_interval_ms, 1000);
    save_app_config(&mut c, 500, 60, true, 10, 20, "app_window".to_owned(), "F9".to_owned());
    assert_eq!(c.poll_interval_ms, 500);
    assert_eq!(c.idle_threshold_sec, 60);
    assert!(c.screenshot_enabled);
    assert_eq!(c.screenshot_mode, "app_window");
    assert_eq!(c.screenshot_blacklist.len(), 3);
}

#[test]
fn input_tracker_state() {
    let mut t = InputTracker::new(1_000);
    assert!(!t.is_listening());
    assert!(!t.mark_listening());
    assert!(t.mark_listening());
    t.on_key(2_000);
    t.on_key(2_500);
    t.on_click(3_000);
    t.on_other_input(4_000);
    assert_eq!(t.get_idle_seconds(9_000), 5);
    let (keys, clicks, idle) = t.get_and_reset_stats(9_000);
    assert_eq!((keys, clicks, idle), (2, 1, 5));
    assert_eq!(t.key_count, 0);
    assert_eq!(t.click_count, 0);
}

#[test]
fn segments_and_activity_levels() {
    let mut s = StateSegment::new(b"chrome".to_vec(), b"tab".to_vec(), 1_000);
    assert_eq!(s.id.len(), 36);
    assert_eq!(s.duration_min, 0);
    s.update_end_time(1_000 + 120);
    assert_eq!(s.duration_min, 2);
    s.update_end_time(500);
    assert_eq!(s.duration_min, 0);
    s.update_end_time(1_000 + 120);
    // 120 inputs over 2 minutes: 60 per minute is high activity.
    s.add_input(100, 20);
    assert!(matches!(s.activity_level, ActivityLevel::High));
    let mut s = StateSegment::new(b"a".to_vec(), b"t".to_vec(), 0);
    s.update_end_time(600);
    s.add_input(200, 10);
    assert!(matches!(s.activity_level, ActivityLevel::Medium));
    let mut s = StateSegment::new(b"a".to_vec(), b"t".to_vec(), 0);
    s.add_input(0, 0);
    assert!(matches!(s.activity_level, ActivityLevel::Idle));
    s.add_input(1, 0);
    assert!(matches!(s.activity_level, ActivityLevel::Low));
    s.set_screenshot(b"/p.jpg".to_vec());
    assert_eq!(s.screenshot_path.as_deref(), Some(&b"/p.jpg"[..]));

    assert_eq!(EventType::AppFocus.name(), "app_focus");
    assert_eq!(EventType::Keyboard.name(), "keyboard");
    assert_eq!(EventType::Mouse.name(), "mouse");
    assert_eq!(EventType::Idle.name(), "idle");
}

#[test]
fn diary_summary_and_markdown() {
    let content = b"# 2024-05-01 Diary\n\n- a list\n* emphasis\n   \nThe real first line.\nSecond.";
    assert_eq!(diary_summary(content).unwrap(), b"The real first line.".to_vec());
    assert!(diary_summary(b"# only\n- headings\n").is_none());
    let long = [b'x'; 80];
    let mut text = b"prefix:\n".to_vec();
    text.extend_from_slice(&long);
    let mut expected = b"prefix:".to_vec();
    let _ = expected; // the first line is already summary text
    let s = diary_summary(&text).unwrap();
    assert_eq!(s, b"prefix:".to_vec());
    let s = diary_summary(&long).unwrap();
    assert_eq!(s.len(), 53);
    assert!(s.ends_with(b"..."));

    let md = render_diary_markdown(b"2024-05-01", b"Did things.");
    assert_eq!(
        md,
        b"# 2024-05-01 Diary\n\nDid things.\n\n---\n*Generated by DailyCraft AI*\n".to_vec()
    );
}

#[test]
fn dashboard_tally() {
    let days = vec![
        DayCount { date: b"2024-04-30".to_vec(), events: 10 },
        DayCount { date: b"2024-05-01".to_vec(), events: 32 },
        DayCount { date: b"2024-04-29".to_vec(), events: 5 },
    ];
    let stats = tally_dashboard(&days, b"2024-05-01", Some(b"summary".to_vec()));
    assert_eq!(stats.total_days, 3);
    assert_eq!(stats.total_events, 47);
    assert_eq!(stats.today_events, 32);
    assert_eq!(stats.today_diary.unwrap(), b"summary".to_vec());
    let stats = tally_dashboard(&Vec::new(), b"2024-05-01", None);
    assert_eq!(stats.total_days, 0);
    assert_eq!(stats.total_events, 0);
    assert!(stats.today_diary.is_none());
}
