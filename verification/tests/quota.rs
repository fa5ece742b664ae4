use pi_sidebar::telemetry::quota_live::{access_token_of, token_request_body};
use pi_sidebar::telemetry::quota_live::{
    checked_session_sliding_windows, countdown_label, format_relative_countdown,
    session_sliding_windows,
};
use pi_sidebar::telemetry::skills_live::iso_to_epoch_ms;

const NOW: u64 = 1_800_000_000_000;

#[test]
fn countdown_shows_days_hours_and_minutes() {
    assert_eq!(countdown_label(NOW + 8_700_000, NOW), "2h 25m");
    assert_eq!(countdown_label(NOW + 507_600_000, NOW), "5d 21h");
    assert_eq!(countdown_label(NOW + 900_000, NOW), "15m");
    assert_eq!(countdown_label(NOW + 7_200_000, NOW), "2h");
    assert_eq!(countdown_label(NOW + 3 * 86_400_000, NOW), "3d");
}

#[test]
fn countdown_reached_is_now_and_under_a_minute_is_one() {
    assert_eq!(countdown_label(NOW - 1, NOW), "now");
    assert_eq!(countdown_label(NOW, NOW), "now");
    assert_eq!(countdown_label(NOW + 30_000, NOW), "1m");
}

#[test]
fn countdown_reads_iso_timestamps() {
    let e = iso_to_epoch_ms("2026-01-01T00:00:00Z").unwrap();
    assert_eq!(
        format_relative_countdown("2026-01-01T00:00:00Z", e - 7_200_000),
        Some("2h".to_string())
    );
    assert_eq!(format_relative_countdown("not a time", e), None);
}

const LOG: &str = r#"{"type":"message","timestamp":"2026-01-01T00:00:00.000Z","message":{"usage":{"input":10,"output":5}}}
{"type":"message","timestamp":"2026-01-01T04:00:00.000Z","message":{"usage":{"input":100,"output":0}}}
{"type":"message","timestamp":"2026-01-01T04:58:00.000Z","message":{"usage":{"input":1,"output":1}}}
{"type":"message","timestamp":"2026-01-01T05:00:00.000Z","message":{"usage":{"output":3}}}
{"type":"message","message":{"usage":{"input":1000}}}
{"type":"custom","timestamp":"2026-01-01T05:00:00.000Z","message":{"usage":{"input":7}}}
"#;

#[test]
fn sliding_windows_sum_recent_usage() {
    assert_eq!(session_sliding_windows(LOG), (5, 105, 120));
    assert_eq!(checked_session_sliding_windows(LOG), Some((5, 105, 120)));
}

#[test]
fn sliding_windows_of_a_log_without_usage_are_zero() {
    assert_eq!(session_sliding_windows("{\"type\":\"session\"}\n"), (0, 0, 0));
}

use pi_sidebar::telemetry::quota_live::{pick_quota_buckets, read_antigravity_auth, QuotaBucket};

fn bucket(id: Option<&str>, window: Option<&str>) -> QuotaBucket {
    QuotaBucket {
        bucket_id: id.map(|s| s.to_string()),
        window: window.map(|s| s.to_string()),
        reset_time: None,
    }
}

#[test]
fn quota_buckets_are_picked_by_window_or_id() {
    let bs = vec![
        bucket(Some("daily"), Some("1d")),
        bucket(Some("x-5h"), None),
        bucket(None, Some("week")),
        bucket(None, Some("5h")),
    ];
    assert_eq!(pick_quota_buckets(&bs), (Some(1), Some(2)));
    assert_eq!(pick_quota_buckets(&[]), (None, None));
}

#[test]
fn auth_prefers_the_antigravity_entry_and_reads_nested_access() {
    let text = r#"{"google":{"access":"g-token"},"antigravity":{"access":"{\"token\":\"ya29\",\"projectId\":\"proj-1\"}","refresh":"r1"}}"#;
    let a = read_antigravity_auth(text).unwrap();
    assert_eq!(a.token, "ya29");
    assert_eq!(a.project_id, "proj-1");
    assert_eq!(a.refresh.as_deref(), Some("r1"));
}

#[test]
fn auth_takes_a_raw_token_and_the_default_project() {
    let a = read_antigravity_auth(r#"{"google":{"access":"raw-token"}}"#).unwrap();
    assert_eq!(a.token, "raw-token");
    assert_eq!(a.project_id, "aicode-consumers");
    assert_eq!(a.refresh, None);
    let b = read_antigravity_auth(r#"{"google-antigravity":{"projectId":"p9","refresh":"rr"}}"#).unwrap();
    assert_eq!(b.token, "");
    assert_eq!(b.project_id, "p9");
    assert!(read_antigravity_auth(r#"{"other":{}}"#).is_none());
    assert!(read_antigravity_auth(r#"{"google":{"refresh":5}}"#).is_none());
}

#[test]
fn a_refresh_request_carries_the_token() {
    assert_eq!(
        token_request_body("id", "sec", "r1"),
        "client_id=id&client_secret=sec&refresh_token=r1&grant_type=refresh_token"
    );
    assert_eq!(access_token_of(r#"{"access_token": "ya29.x", "expires_in": 3599}"#), Some("ya29.x".to_string()));
    assert_eq!(access_token_of(r#"{"error": "invalid_grant"}"#), None);
    assert_eq!(access_token_of(r#"{"access_token": 5}"#), None);
    assert_eq!(access_token_of("not json"), None);
}
