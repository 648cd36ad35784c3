use hybrid_screen_capture::deps::{pkg_config_check_name, section_heading, tally, wayland_feature_enabled, CheckResult};
use hybrid_screen_capture::recorder::{RecorderState, RecorderStatus};

#[test]
fn check_results_and_report_lines() {
    let a = CheckResult::pass("ffmpeg on PATH".to_string());
    let b = CheckResult::pass_with_version("pkg-config: gstreamer-1.0".to_string(), "1.22.0".to_string());
    let c = CheckResult::fail("x264enc plugin".to_string());
    assert_eq!(a.report_line(), "[OK]   ffmpeg on PATH");
    assert_eq!(b.report_line(), "[OK]   pkg-config: gstreamer-1.0 (1.22.0)");
    assert_eq!(c.report_line(), "[FAIL] x264enc plugin");
    assert!(a.passed && b.passed && !c.passed);
    assert_eq!(b.version.as_deref(), Some("1.22.0"));
    assert_eq!(tally(&[a, b, c]), (2, 1));
    assert_eq!(tally(&[]), (0, 0));
}

#[test]
fn wayland_checks_follow_the_features() {
    assert!(wayland_feature_enabled(false, None));
    assert!(!wayland_feature_enabled(true, None));
    assert!(wayland_feature_enabled(true, Some("screen-capture,wayland-pipe")));
    assert!(!wayland_feature_enabled(false, Some("screen-capture")));
    assert!(!wayland_feature_enabled(false, Some("wayland")));
}

#[test]
fn report_texts() {
    assert_eq!(pkg_config_check_name("gstreamer-1.0"), "pkg-config: gstreamer-1.0");
    assert_eq!(section_heading("Summary"), "== Summary ==");
}

#[test]
fn recorder_button_and_status() {
    let mut s = RecorderState::new();
    assert_eq!(s.status.label(), "Ready");
    assert!(!s.on_button(false));
    assert_eq!(s.status, RecorderStatus::Error);
    assert!(!s.recording);
    assert!(s.on_button(true));
    assert!(s.recording);
    assert_eq!(s.status.label(), "Recording...");
    s.on_status(RecorderStatus::Ready);
    assert!(!s.recording);
    assert!(s.on_button(true));
    assert!(!s.on_button(true));
    assert_eq!(s.status, RecorderStatus::Ready);
    assert!(!s.recording);
    s.on_status(RecorderStatus::Error);
    assert_eq!(s.status.label(), "Error");
}
