use hybrid_screen_capture::capture::scrap::{
    encoded_size, rawvideo_args, rtsp_frame_size, strict_capture_step, tolerant_capture_step, x11grab_args, CaptureEvent,
    CaptureStep, MAX_CONSECUTIVE_FAILURES,
};
use hybrid_screen_capture::capture::session_sources::FFmpegCaptureSource;
use hybrid_screen_capture::config::config::CaptureConfig;
use hybrid_screen_capture::presets::TokenPreset;

#[test]
fn test_platform_specific_capture_source_selection() {
    println!("Testing platform-specific capture source selection...");
    println!("  Linux: Would use FFmpegCaptureSource or GStreamerCaptureSource");
    let source = FFmpegCaptureSource::new(":0.0").unwrap();
    let size = source.input_size();
    assert_eq!((size.w, size.h), (1920, 1080));
    println!("✅ Platform detection logic validated");
}

#[test]
fn ffmpeg_source_produces_a_gradient() {
    let mut source = FFmpegCaptureSource::new(":0.0").unwrap();
    let frame = source.capture_frame();
    assert_eq!((frame.width, frame.height), (1920, 1080));
    assert_eq!(frame.stride, 1920 * 4);
    assert_eq!(frame.data.len(), 1920 * 1080 * 4);
    assert_eq!(frame.pts_ns, None);
    let px = |x: usize, y: usize| frame.data[(y * 1920 + x) * 4..(y * 1920 + x) * 4 + 4].to_vec();
    assert_eq!(px(0, 0), vec![128, 0, 0, 255]);
    assert_eq!(px(1919, 1079), vec![128, 254, 254, 255]);
    assert_eq!(px(960, 540), vec![128, 127, 127, 255]);
    assert_ne!(px(0, 0)[2], px(1919, 0)[2]);
    assert_ne!(px(0, 0)[1], px(0, 1079)[1]);
}

#[test]
fn ffmpeg_command_lines() {
    let options = CaptureConfig::new("out.mp4".to_string(), 30, 12, 23, false, None, false).to_capture_options();
    let args = x11grab_args(&options, ":1");
    assert_eq!(
        args,
        vec![
            "-y", "-f", "x11grab", "-i", ":1.0", "-r", "30", "-t", "12", "-an", "-c:v", "libx264", "-preset", "veryfast",
            "-tune", "zerolatency", "-crf", "23", "-pix_fmt", "yuv420p", "-movflags", "+faststart", "out.mp4"
        ]
    );
    let args = rawvideo_args(&options, 640, 360);
    assert_eq!(
        args,
        vec![
            "-y", "-f", "rawvideo", "-pix_fmt", "bgra", "-s", "640x360", "-r", "30", "-i", "-", "-an", "-c:v", "libx264",
            "-preset", "veryfast", "-tune", "zerolatency", "-crf", "23", "-pix_fmt", "yuv420p", "-movflags", "+faststart",
            "out.mp4"
        ]
    );
}

#[test]
fn recorded_and_streamed_sizes() {
    assert_eq!(encoded_size(1920, 1080, None), (1920, 1080));
    assert_eq!(encoded_size(1920, 1080, Some(TokenPreset::P9_Long640)), (640, 360));
    assert_eq!(rtsp_frame_size(1920, 1080, true, None), (1920, 1280));
    assert_eq!(rtsp_frame_size(1920, 1080, true, Some(TokenPreset::P4_Long640)), (1920, 1280));
    assert_eq!(rtsp_frame_size(5000, 5000, true, None), (2560, 1920));
    assert_eq!(rtsp_frame_size(1920, 1080, false, Some(TokenPreset::P2_56_Long640)), (640, 360));
    assert_eq!(rtsp_frame_size(1920, 1080, false, Some(TokenPreset::P4_Long640)), (640, 360));
    assert_eq!(rtsp_frame_size(1920, 1080, false, Some(TokenPreset::P6_9_Long512)), (512, 288));
    assert_eq!(rtsp_frame_size(1280, 1024, false, Some(TokenPreset::P9_Long640)), (640, 512));
    assert_eq!(rtsp_frame_size(1920, 1080, false, Some(TokenPreset::P10_24_Long640)), (640, 360));
    assert_eq!(rtsp_frame_size(1920, 1080, false, None), (1920, 1080));
    assert_eq!(rtsp_frame_size(2560, 1440, false, None), (2560, 1440));
}

#[test]
fn tolerant_loop_gives_up_at_the_tenth_failure() {
    let mut failures = 0;
    for k in 1..=MAX_CONSECUTIVE_FAILURES {
        let (f, step) = tolerant_capture_step(failures, CaptureEvent::Failed, 16);
        assert_eq!(f, k);
        if k < MAX_CONSECUTIVE_FAILURES {
            assert_eq!(step, CaptureStep::Retry);
        } else {
            assert_eq!(step, CaptureStep::GiveUp);
        }
        failures = f;
    }
    assert_eq!(tolerant_capture_step(5, CaptureEvent::WouldBlock, 16), (0, CaptureStep::Wait));
    assert_eq!(tolerant_capture_step(5, CaptureEvent::Frame { len: 16 }, 16), (0, CaptureStep::Stream));
    assert_eq!(tolerant_capture_step(5, CaptureEvent::Frame { len: 15 }, 16), (0, CaptureStep::Skip));
}

#[test]
fn strict_loop_stops_on_any_fault() {
    assert_eq!(strict_capture_step(CaptureEvent::Frame { len: 16 }, 16), CaptureStep::Stream);
    assert_eq!(strict_capture_step(CaptureEvent::Frame { len: 8 }, 16), CaptureStep::GiveUp);
    assert_eq!(strict_capture_step(CaptureEvent::WouldBlock, 16), CaptureStep::Wait);
    assert_eq!(strict_capture_step(CaptureEvent::Failed, 16), CaptureStep::GiveUp);
}
