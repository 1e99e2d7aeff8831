use codex_quota::quota::{
    is_response_for, MAX_EPOCH_SECONDS, MIN_EPOCH_SECONDS,
    convert_window, format_clock, format_reset_stamp, format_reset_time, newest_candidate,
    normalize_rate_limits, response_error, CodexCandidate, LocalStamp, RawLimits, RawWindow,
};

fn stamp(month: u32, day: u32, hour: u32, minute: u32, second: u32) -> LocalStamp {
    LocalStamp { year: 2025, month, day, hour, minute, second }
}

#[test]
fn reset_stamp_formats() {
    let today = stamp(3, 9, 8, 0, 0);
    assert_eq!(format_reset_stamp(Some(stamp(3, 9, 14, 5, 0)), today), "14:05");
    assert_eq!(format_reset_stamp(Some(stamp(3, 10, 4, 30, 0)), today), "3/10 04:30");
    assert_eq!(format_reset_stamp(Some(stamp(12, 1, 0, 0, 0)), today), "12/1 00:00");
    assert_eq!(format_reset_stamp(None, today), "unknown");
    assert_eq!(format_clock(stamp(1, 1, 9, 7, 3)), "09:07:03");
}

#[test]
fn reset_time_of_an_out_of_range_timestamp_is_unknown() {
    assert_eq!(format_reset_time(i64::MAX), "unknown");
    assert_eq!(format_reset_time(i64::MIN), "unknown");
    let t = format_reset_time(1_700_000_000);
    assert!(t.len() == 5 || t.contains('/'));
}

#[test]
fn windows_default_to_zero_and_unknown() {
    let w = convert_window(None);
    assert_eq!(w.remaining, 0);
    assert_eq!(w.reset, "unknown");
    let w = convert_window(Some(RawWindow { remaining: 64, resets_at: None }));
    assert_eq!(w.remaining, 64);
    assert_eq!(w.reset, "unknown");
}

fn limits(name: Option<&str>) -> RawLimits {
    RawLimits {
        limit_name: name.map(|s| s.to_string()),
        plan_type: None,
        primary: Some(RawWindow { remaining: 80, resets_at: None }),
        secondary: None,
    }
}

#[test]
fn rate_limits_prefer_the_codex_entry() {
    let s = normalize_rate_limits(Some(limits(Some("codex-limit"))), Some(limits(Some("general")))).ok().unwrap();
    assert_eq!(s.status, "ready");
    assert_eq!(s.limit_name, "codex-limit");
    assert_eq!(s.plan_type, "");
    assert_eq!(s.primary_remaining, 80);
    assert_eq!(s.primary_reset, "unknown");
    assert_eq!(s.secondary_remaining, 0);
    assert_eq!(s.secondary_reset, "unknown");
    assert_eq!(s.updated_at.len(), 8);
    let s = normalize_rate_limits(None, Some(limits(None))).ok().unwrap();
    assert_eq!(s.limit_name, "Codex");
}

#[test]
fn rate_limits_without_data_fail() {
    match normalize_rate_limits(None, None) {
        Err(e) => assert_eq!(e.message(), "Codex returned no rate limit data."),
        Ok(_) => panic!("expected an error"),
    }
}

#[test]
fn response_errors() {
    assert!(response_error(false, Some("x".to_string())).is_none());
    assert_eq!(response_error(true, Some("boom".to_string())).unwrap().0, "boom");
    assert_eq!(response_error(true, None).unwrap().0, "Codex returned an error.");
}

fn cand(name: &str, modified: Option<i128>) -> CodexCandidate {
    CodexCandidate { dir_name: name.to_string(), modified }
}

#[test]
fn newest_candidate_prefers_recent_then_greater_name() {
    assert_eq!(newest_candidate(&vec![]), None);
    let c = vec![cand("1.0", Some(5)), cand("2.0", Some(9)), cand("3.0", None)];
    assert_eq!(newest_candidate(&c), Some(1));
    let c = vec![cand("1", Some(5)), cand("1.2", Some(5))];
    assert_eq!(newest_candidate(&c), Some(1));
    let c = vec![cand("b", None), cand("a", None)];
    assert_eq!(newest_candidate(&c), Some(0));
    let c = vec![cand("a", Some(1)), cand("a", Some(1))];
    assert_eq!(newest_candidate(&c), Some(0));
}

fn chrono_reset_text(epoch_seconds: i64) -> String {
    let Some(date) = chrono::DateTime::from_timestamp(epoch_seconds, 0) else {
        return "unknown".into();
    };
    let local = date.with_timezone(&chrono::Local);
    let now = chrono::Local::now();
    if local.date_naive() == now.date_naive() {
        local.format("%H:%M").to_string()
    } else {
        local.format("%-m/%-d %H:%M").to_string()
    }
}

#[test]
fn reset_time_matches_the_local_calendar() {
    let now = chrono::Local::now().timestamp();
    for t in [0, 1_700_000_000, 951_786_123, -2_208_988_800, now, now + 3600, now + 2 * 86400] {
        assert_eq!(format_reset_time(t), chrono_reset_text(t), "{t}");
    }
}

#[test]
fn reset_time_covers_chronos_whole_range() {
    assert_eq!(MIN_EPOCH_SECONDS, chrono::DateTime::<chrono::Utc>::MIN_UTC.timestamp());
    assert_eq!(MAX_EPOCH_SECONDS, chrono::DateTime::<chrono::Utc>::MAX_UTC.timestamp());
    assert_eq!(format_reset_time(MIN_EPOCH_SECONDS - 1), "unknown");
    assert_eq!(format_reset_time(MAX_EPOCH_SECONDS + 1), "unknown");
    assert_ne!(format_reset_time(MIN_EPOCH_SECONDS + 2 * 86400), "unknown");
    assert_ne!(format_reset_time(MAX_EPOCH_SECONDS - 2 * 86400), "unknown");
}

#[test]
fn missing_windows_read_as_zero_and_unknown() {
    let limits = RawLimits {
        limit_name: Some("codex".to_string()),
        plan_type: Some("plus".to_string()),
        primary: None,
        secondary: Some(RawWindow { remaining: 40, resets_at: Some(1_700_000_000) }),
    };
    let s = normalize_rate_limits(Some(limits), None).ok().unwrap();
    assert_eq!(s.primary_remaining, 0);
    assert_eq!(s.primary_reset, "unknown");
    assert_eq!(s.secondary_remaining, 40);
    assert_eq!(s.secondary_reset, chrono_reset_text(1_700_000_000));
    assert_eq!(s.plan_type, "plus");
}

#[test]
fn responses_are_matched_by_integer_id() {
    assert!(is_response_for(Some(2), 2));
    assert!(!is_response_for(Some(1), 2));
    assert!(!is_response_for(None, 2));
}
