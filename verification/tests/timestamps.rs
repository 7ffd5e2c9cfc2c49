use std::time::SystemTime;

use alibabacloud::timestamp::rfc3339_utc;

fn unix_now_secs() -> u64 {
    SystemTime::now()
        .duration_since(SystemTime::UNIX_EPOCH)
        .unwrap()
        .as_secs()
}

#[test]
fn timestamp_is_seconds_precision_utc() {
    let ts = rfc3339_utc(unix_now_secs()).unwrap();
    assert!(ts.ends_with('Z'));
    assert!(!ts.contains('.'));
}

#[test]
fn timestamps_render_known_instants() {
    assert_eq!(rfc3339_utc(0).unwrap(), "1970-01-01T00:00:00Z");
    assert_eq!(rfc3339_utc(1420113600).unwrap(), "2015-01-01T12:00:00Z");
    assert_eq!(rfc3339_utc(1456704000).unwrap(), "2016-02-29T00:00:00Z");
    assert_eq!(rfc3339_utc(951782399).unwrap(), "2000-02-28T23:59:59Z");
    assert_eq!(rfc3339_utc(951782400).unwrap(), "2000-02-29T00:00:00Z");
}

#[test]
fn far_future_times_are_not_rendered() {
    assert!(rfc3339_utc(u64::MAX).is_none());
}
