use hybrid_screen_capture::config::config::CaptureConfig;
use hybrid_screen_capture::presets::TokenPreset;

#[test]
fn test_default_config() {
    let config = CaptureConfig::default();
    assert_eq!(config.output, "capture.mp4");
    assert_eq!(config.fps, 30);
    assert_eq!(config.seconds, 10);
    assert_eq!(config.crf, 23);
    assert_eq!(config.window, false);
}

#[test]
fn test_config_validation() {
    let mut config = CaptureConfig::default();
    assert!(config.validate().is_ok());
    config.fps = 0;
    assert!(config.validate().is_err());
    config.fps = 30;
    config.seconds = 0;
    assert!(config.validate().is_err());
    config.seconds = 10;
    config.crf = 10;
    assert!(config.validate().is_err());
    config.crf = 30;
    assert!(config.validate().is_err());
    config.crf = 23;
    assert!(config.validate().is_ok());
}

#[test]
fn config_validation_reports_first_problem() {
    let mut config = CaptureConfig::new("out.mp4".to_string(), 0, 0, 5, false, None, false);
    assert_eq!(config.validate().unwrap_err(), "FPS must be greater than 0");
    config.fps = 24;
    assert_eq!(config.validate().unwrap_err(), "Duration must be greater than 0 seconds");
    config.seconds = 3;
    assert_eq!(config.validate().unwrap_err(), "CRF must be between 18 and 28");
    config.crf = 18;
    assert!(config.validate().is_ok());
    config.crf = 28;
    assert!(config.validate().is_ok());
    config.crf = 29;
    assert!(config.validate().is_err());
}

#[test]
fn capture_options_copy_the_config() {
    let config = CaptureConfig::new(
        "clip.mp4".to_string(),
        60,
        5,
        20,
        true,
        Some(TokenPreset::P9_Long640),
        true,
    );
    let options = config.to_capture_options();
    assert_eq!(options.output, "clip.mp4");
    assert_eq!(options.fps, 60);
    assert_eq!(options.seconds, 5);
    assert_eq!(options.crf, 20);
    assert!(options.window);
    assert!(matches!(options.scale_preset, Some(TokenPreset::P9_Long640)));
    assert!(options.gundam_mode);
}
