use hybrid_screen_capture::cli::{is_wayland_session_type, parse_duration, parse_quality, parse_u32};
use hybrid_screen_capture::error::CaptureError;

fn validation_parts(e: CaptureError) -> (String, String, String) {
    match e {
        CaptureError::Validation { field, constraint, value, .. } => (field, constraint, value),
        other => panic!("not a validation error: {}", other.to_string()),
    }
}

#[test]
fn durations_in_seconds_minutes_and_hours() {
    assert_eq!(parse_duration("45").unwrap(), 45);
    assert_eq!(parse_duration("30s").unwrap(), 30);
    assert_eq!(parse_duration("2m").unwrap(), 120);
    assert_eq!(parse_duration("1h").unwrap(), 3600);
    assert_eq!(parse_duration("+7").unwrap(), 7);
    assert_eq!(parse_duration("0s").unwrap(), 0);
}

#[test]
fn duration_errors() {
    assert_eq!(
        validation_parts(parse_duration("").unwrap_err()),
        ("duration".to_string(), "invalid format".to_string(), "".to_string())
    );
    assert_eq!(
        validation_parts(parse_duration("x").unwrap_err()),
        ("duration".to_string(), "invalid format".to_string(), "x".to_string())
    );
    assert_eq!(
        validation_parts(parse_duration("abs").unwrap_err()),
        ("duration".to_string(), "invalid number".to_string(), "ab".to_string())
    );
    assert_eq!(
        validation_parts(parse_duration("10d").unwrap_err()),
        ("duration".to_string(), "invalid unit (use s/m/h)".to_string(), "d".to_string())
    );
    assert_eq!(
        validation_parts(parse_duration("-5s").unwrap_err()),
        ("duration".to_string(), "invalid number".to_string(), "-5".to_string())
    );
}

#[test]
fn durations_ending_in_a_wide_character_are_refused() {
    assert_eq!(
        validation_parts(parse_duration("5é").unwrap_err()),
        ("duration".to_string(), "invalid unit (use s/m/h)".to_string(), "é".to_string())
    );
    assert_eq!(
        validation_parts(parse_duration("é").unwrap_err()),
        ("duration".to_string(), "invalid number".to_string(), "".to_string())
    );
    assert_eq!(
        validation_parts(parse_duration("1.5m").unwrap_err()),
        ("duration".to_string(), "invalid number".to_string(), "1.5".to_string())
    );
}

#[test]
fn numbers_read_like_std() {
    for s in ["0", "7", "+12", "4294967295", "007", "", "+", "-1", "4294967296", "12a", " 1", "99999999999999999999"] {
        assert_eq!(parse_u32(s.as_bytes()), s.parse::<u32>().ok(), "{}", s);
    }
}

#[test]
fn quality_presets() {
    assert_eq!(parse_quality("low").unwrap(), 28);
    assert_eq!(parse_quality("medium").unwrap(), 23);
    assert_eq!(parse_quality("HIGH").unwrap(), 20);
    assert_eq!(parse_quality("Ultra").unwrap(), 18);
    assert_eq!(
        validation_parts(parse_quality("best").unwrap_err()),
        ("quality".to_string(), "invalid preset (use low/medium/high/ultra)".to_string(), "best".to_string())
    );
}

#[test]
fn wayland_session_detection() {
    assert!(is_wayland_session_type(Some("wayland")));
    assert!(is_wayland_session_type(Some("Wayland")));
    assert!(!is_wayland_session_type(Some("x11")));
    assert!(!is_wayland_session_type(Some("waylandx")));
    assert!(!is_wayland_session_type(None));
}
