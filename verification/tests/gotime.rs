use cadvisor::api::Params;
use cadvisor::model::{rfc3339_from, GoTime};
use chrono::TimeZone;

fn at(nanos: u32) -> GoTime {
    let dt = chrono::Utc.with_ymd_and_hms(2026, 7, 16, 10, 30, 5).unwrap();
    GoTime { secs: dt.timestamp(), nanos }
}

#[test]
fn zero_value_matches_go() {
    assert_eq!(GoTime::zero().to_rfc3339_nano(), "0001-01-01T00:00:00Z");
    assert_eq!(GoTime::default().to_rfc3339_nano(), "0001-01-01T00:00:00Z");
}

#[test]
fn fraction_omitted_when_zero() {
    assert_eq!(at(0).to_rfc3339_nano(), "2026-07-16T10:30:05Z");
}

#[test]
fn fraction_trailing_zeros_trimmed() {
    let cases = [
        (500_000_000u32, "2026-07-16T10:30:05.5Z"),
        (123_456_789, "2026-07-16T10:30:05.123456789Z"),
        (123_456_700, "2026-07-16T10:30:05.1234567Z"),
        (1_000_000, "2026-07-16T10:30:05.001Z"),
        (1, "2026-07-16T10:30:05.000000001Z"),
    ];
    for (nanos, want) in cases {
        assert_eq!(at(nanos).to_rfc3339_nano(), want);
    }
}

#[test]
fn parses_offsets_and_fractions() {
    let p = Params::parse(&Some("t=2026-07-16T10:30:05.25%2B08:00&z=0001-01-01T00:00:00Z".to_string()));
    assert_eq!(p.get_time("t").to_rfc3339_nano(), "2026-07-16T02:30:05.25Z");
    assert!(p.get_time("z").is_zero());
}

#[test]
fn fraction_from_civil_text() {
    assert_eq!(rfc3339_from("2000-01-01T00:00:00", 0), "2000-01-01T00:00:00Z");
    assert_eq!(rfc3339_from("2000-01-01T00:00:00", 120), "2000-01-01T00:00:00.00000012Z");
}

#[test]
fn unparsable_time_is_zero() {
    let p = Params::parse(&Some("t=yesterday".to_string()));
    assert!(p.get_time("t").is_zero());
    assert!(p.get_time("missing").is_zero());
}
