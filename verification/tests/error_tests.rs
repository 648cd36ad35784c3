use hybrid_screen_capture::error::classify;
use hybrid_screen_capture::error::{
    CaptureError, ErrorBuilder, ErrorContext, ErrorSeverity, HasRecoverySuggestion, HasSeverity, Recoverable,
    RecoveryStrategy, Retryable,
};

#[test]
fn test_error_creation() {
    let error = CaptureError::config("fps", "0", "must be greater than 0");
    assert_eq!(error.category(), "config");
    assert!(!error.is_retryable());
}

#[test]
fn test_error_with_context() {
    let error = CaptureError::processing("resize", "invalid dimensions")
        .with_context("resizing frame for display")
        .with_recovery_suggestion("check frame dimensions before resize")
        .retryable();
    assert_eq!(error.category(), "processing");
    assert!(error.is_retryable());
    assert_eq!(error.recovery_suggestion(), Some("check frame dimensions before resize"));
}

#[test]
fn test_error_traits() {
    let timeout_error = CaptureError::timeout("network_request", 5000).retryable();
    assert!(timeout_error.is_retryable());
    assert_eq!(timeout_error.retry_delay_ms(), Some(1000));
    assert_eq!(timeout_error.max_retries(), Some(3));
}

#[test]
fn test_error_classification() {
    let config_error = CaptureError::config("invalid", "value", "reason");
    assert!(classify::is_fatal(&config_error));
    let network_error = CaptureError::network("connect");
    assert!(classify::is_transient(&network_error));
}

#[test]
fn error_messages() {
    assert_eq!(
        CaptureError::config("fps", "0", "must be greater than 0").to_string(),
        "Configuration error in 'fps': must be greater than 0 (value: 0)"
    );
    assert_eq!(
        CaptureError::capture_init("x11", "no display").to_string(),
        "Failed to initialize capture on x11: no display"
    );
    assert_eq!(CaptureError::frame_capture("lost").to_string(), "Frame capture failed: lost");
    assert_eq!(
        CaptureError::processing("resize", "bad").to_string(),
        "Processing failed during resize: bad"
    );
    assert_eq!(CaptureError::streaming("rtsp", "down").to_string(), "Streaming to rtsp failed: down");
    assert_eq!(
        CaptureError::resource("buffers", "none left").to_string(),
        "Resource allocation failed for buffers: none left"
    );
    assert_eq!(
        CaptureError::platform("linux", Some(-22), "ioctl").to_string(),
        "Platform error on linux (code -22): ioctl"
    );
    assert_eq!(CaptureError::platform("mac", None, "denied").to_string(), "Platform error on mac: denied");
    assert_eq!(
        CaptureError::gstreamer(Some("x264enc".to_string()), "no caps").to_string(),
        "GStreamer error in element 'x264enc': no caps"
    );
    assert_eq!(CaptureError::gstreamer(None, "eos").to_string(), "GStreamer error: eos");
    assert_eq!(
        CaptureError::external("serde_json", "bad json").to_string(),
        "External library error in serde_json: bad json"
    );
    assert_eq!(
        CaptureError::timeout("connect", 1500).to_string(),
        "Timeout during connect after 1500ms"
    );
    assert_eq!(
        CaptureError::validation("fps", "positive", "-1").to_string(),
        "Validation failed for 'fps': positive (value: -1)"
    );
    assert_eq!(
        CaptureError::state("idle", "stop", "not running").to_string(),
        "Invalid state transition from 'idle' when attempting 'stop': not running"
    );
    assert_eq!(CaptureError::network("connect").to_string(), "Network error during connect");
    assert_eq!(
        CaptureError::auth("login", "expired").to_string(),
        "Authentication error during login: expired"
    );
    assert_eq!(
        CaptureError::custom("misc", "odd", serde_json::Value::Null).to_string(),
        "Custom error [misc]: odd"
    );
}

#[test]
fn io_error_message_ends_with_the_source_text() {
    let io = std::io::Error::new(std::io::ErrorKind::Other, "disk gone");
    let e = CaptureError::io("write", io);
    assert_eq!(e.to_string(), "I/O error during write: disk gone");
    assert_eq!(e.category(), "io");
    assert_eq!(e.message_with_source("X"), "I/O error during write: X");
}

#[test]
fn error_categories() {
    let cases: Vec<(CaptureError, &str)> = vec![
        (CaptureError::config("a", "b", "c"), "config"),
        (CaptureError::capture_init("a", "b"), "capture_init"),
        (CaptureError::frame_capture("a"), "frame_capture"),
        (CaptureError::processing("a", "b"), "processing"),
        (CaptureError::streaming("a", "b"), "streaming"),
        (CaptureError::resource("a", "b"), "resource"),
        (CaptureError::platform("a", None, "b"), "platform"),
        (CaptureError::gstreamer(None, "a"), "gstreamer"),
        (CaptureError::external("a", "b"), "external"),
        (CaptureError::timeout("a", 1), "timeout"),
        (CaptureError::validation("a", "b", "c"), "validation"),
        (CaptureError::state("a", "b", "c"), "state"),
        (CaptureError::network("a"), "network"),
        (CaptureError::auth("a", "b"), "auth"),
        (CaptureError::custom("a", "b", serde_json::Value::Bool(true)), "custom"),
    ];
    for (e, cat) in cases {
        assert_eq!(e.category(), cat);
    }
}

#[test]
fn retry_advice_by_kind() {
    let net = CaptureError::network("send");
    assert!(net.is_retryable());
    assert_eq!(net.retry_delay_ms(), Some(2000));
    assert_eq!(net.max_retries(), Some(5));
    let res = CaptureError::resource("mem", "oom");
    assert_eq!(res.retry_delay_ms(), Some(500));
    assert_eq!(res.max_retries(), Some(10));
    let io = CaptureError::io("read", std::io::Error::new(std::io::ErrorKind::Other, "x"));
    assert!(io.is_retryable());
    assert_eq!(io.retry_delay_ms(), Some(100));
    assert_eq!(io.max_retries(), Some(3));
    let cfg = CaptureError::config("a", "b", "c");
    assert!(!cfg.is_retryable());
    assert_eq!(cfg.retry_delay_ms(), None);
    assert_eq!(cfg.max_retries(), None);
}

#[test]
fn recovery_strategies_by_kind() {
    let t = CaptureError::timeout("op", 10).recovery_strategies();
    assert_eq!(t.len(), 2);
    assert!(matches!(t[0], RecoveryStrategy::Retry { max_attempts: 3, delay_ms: 1000 }));
    assert!(matches!(&t[1], RecoveryStrategy::Fallback { description } if description == "Use synchronous operation"));
    let p = CaptureError::processing("op", "r").recovery_strategies();
    assert!(matches!(&p[0], RecoveryStrategy::Skip { reason } if reason == "Skip current frame"));
    assert!(matches!(&p[1], RecoveryStrategy::Reinitialize { component } if component == "processing_pipeline"));
    let s = CaptureError::streaming("t", "r").recovery_strategies();
    assert!(matches!(&s[1], RecoveryStrategy::Fallback { description } if description == "Switch to file output"));
    let r = CaptureError::resource("t", "r").recovery_strategies();
    assert!(matches!(&r[1], RecoveryStrategy::Degrade { description } if description == "Reduce resource usage"));
    let n = CaptureError::network("t").recovery_strategies();
    assert!(matches!(n[0], RecoveryStrategy::Retry { max_attempts: 5, delay_ms: 2000 }));
    assert!(CaptureError::auth("a", "b").recovery_strategies().is_empty());
    assert!(CaptureError::processing("a", "b").is_recoverable());
    assert!(!CaptureError::auth("a", "b").is_recoverable());
    assert!(CaptureError::auth("a", "b").recoverable().is_recoverable());
}

#[test]
fn severity_and_priority() {
    let e = CaptureError::frame_capture("x");
    assert_eq!(e.severity(), ErrorSeverity::Error);
    assert_eq!(classify::priority(&e), 3);
    assert!(!classify::requires_user_intervention(&e));
    assert!(!classify::is_fatal(&e));
    let c = e.with_severity(ErrorSeverity::Critical);
    assert_eq!(classify::priority(&c), 4);
    assert!(classify::requires_user_intervention(&c));
    let f = c.with_severity(ErrorSeverity::Fatal);
    assert!(classify::is_fatal(&f));
    assert_eq!(classify::priority(&f), 5);
    let d = CaptureError::frame_capture("y").with_severity(ErrorSeverity::Debug);
    assert_eq!(classify::priority(&d), 0);
    assert!(!classify::is_transient(&d));
}

#[test]
fn builder_matches_chained_setters() {
    let built = ErrorBuilder::new(CaptureError::streaming("rtsp", "down"))
        .context("sending frame 4")
        .operation("send")
        .recovery_suggestion("restart the server")
        .severity(ErrorSeverity::Warning)
        .retryable()
        .recoverable()
        .metadata("port", "8554")
        .build();
    let ctx = built.context();
    assert_eq!(ctx.context.as_deref(), Some("sending frame 4"));
    assert_eq!(ctx.operation.as_deref(), Some("send"));
    assert_eq!(ctx.recovery_suggestion.as_deref(), Some("restart the server"));
    assert_eq!(ctx.severity, ErrorSeverity::Warning);
    assert!(ctx.retryable && ctx.recoverable);
    assert_eq!(ctx.metadata.get("port").map(|s| s.as_str()), Some("8554"));
    assert_eq!(built.to_string(), "Streaming to rtsp failed: down");
}

#[test]
fn fresh_context_defaults() {
    let c = ErrorContext::new();
    assert!(c.operation.is_none() && c.context.is_none());
    assert!(c.recovery_suggestion.is_none() && c.source_location.is_none());
    assert_eq!(c.severity, ErrorSeverity::Error);
    assert!(!c.retryable && !c.recoverable);
    assert!(c.metadata.is_empty());
    let c = c.with_source_location("main.rs:10").with_metadata("k", "v").with_metadata("k", "w");
    assert_eq!(c.source_location.as_deref(), Some("main.rs:10"));
    assert_eq!(c.metadata.len(), 1);
    assert_eq!(c.metadata.get("k").map(|s| s.as_str()), Some("w"));
}

#[test]
fn conversions_of_outside_errors() {
    let e = CaptureError::from_io(std::io::Error::new(std::io::ErrorKind::NotFound, "gone"));
    assert!(matches!(&e, CaptureError::Io { operation, path: None, .. } if operation == "unknown"));
    let j = CaptureError::from_json_error("expected value");
    assert_eq!(j.to_string(), "External library error in serde_json: expected value");
    let p = CaptureError::from_parse_error("integer", "invalid digit found in string");
    assert_eq!(p.to_string(), "Validation failed for 'integer': invalid format (value: invalid digit found in string)");
}
