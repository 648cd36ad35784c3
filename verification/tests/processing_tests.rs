use fast_image_resize::Resizer;
use hybrid_screen_capture::cpu::Staging;
use hybrid_screen_capture::gundam::GundamCfg;
use hybrid_screen_capture::presets::TokenPreset;
use hybrid_screen_capture::processing::processing::{check_session_parts, file_frame_pts, file_launch_description};
use hybrid_screen_capture::processing::{GundamProcessor, ScalingProcessor, Size, StreamConfig, StreamFormat};
use hybrid_screen_capture::BgraFrame;
use std::sync::Arc;

fn test_frame(width: u32, height: u32) -> BgraFrame {
    let mut data = Vec::with_capacity((width * height * 4) as usize);
    for y in 0..height {
        for x in 0..width {
            data.extend_from_slice(&[(x % 256) as u8, (y % 256) as u8, 128, 255]);
        }
    }
    BgraFrame { data: Arc::new(data), width, height, stride: (width * 4) as usize, pts_ns: Some(1000000) }
}

fn gundam() -> GundamProcessor {
    GundamProcessor { cfg: GundamCfg::default(), tile_buffers: Vec::new(), global_buffer: Vec::new(), output_size: Size { w: 0, h: 0 } }
}

fn scaler(preset: TokenPreset, cap: usize) -> ScalingProcessor {
    ScalingProcessor { preset, resizer: Resizer::new(), staging: Staging::with_capacity(cap), output_buffer: Vec::new(), output_size: Size { w: 0, h: 0 } }
}

#[test]
fn gundam_processor_initialization() {
    let mut p = gundam();
    let out = p.initialize(Size { w: 1920, h: 1080 });
    assert_eq!(p.tile_buffers.len(), 4);
    assert!(p.tile_buffers.iter().all(|b| b.len() == 640 * 640 * 4 && b.iter().all(|&x| x == 0)));
    assert_eq!(p.global_buffer.len(), 1024 * 1024 * 4);
    assert_eq!((out.w, out.h), (1920, 1280));
    assert_eq!((p.output_size.w, p.output_size.h), (1920, 1280));
    let out = p.initialize(Size { w: 640, h: 480 });
    assert_eq!(p.tile_buffers.len(), 2);
    assert_eq!((out.w, out.h), (1280, 1280));
}

#[test]
fn gundam_processor_frame_processing() {
    let mut p = gundam();
    p.initialize(Size { w: 1920, h: 1080 });
    let f = p.process_frame(test_frame(1920, 1080)).unwrap();
    assert_eq!((f.width, f.height), (1920, 1280));
    assert_eq!(f.stride, (f.width * 4) as usize);
    assert_eq!(f.data.len(), (f.width * f.height * 4) as usize);
    assert_eq!(f.pts_ns, Some(1000000));
    // The last cell of the first row holds the global view; the last cell is white.
    let white = (1280usize * 1920 - 1) * 4;
    assert_eq!(&f.data[white..white + 4], &[255, 255, 255, 255]);
}

#[test]
fn gundam_processor_small_input() {
    let mut p = gundam();
    let out = p.initialize(Size { w: 640, h: 480 });
    assert!(out.w > 0 && out.h > 0);
    let f = p.process_frame(test_frame(640, 480)).unwrap();
    assert_eq!((f.width, f.height), (1280, 1280));
    assert_eq!(f.pts_ns, Some(1000000));
}

#[test]
fn gundam_processor_preserves_timestamp() {
    let mut p = gundam();
    p.initialize(Size { w: 1024, h: 768 });
    let f = p.process_frame(test_frame(1024, 768)).unwrap();
    assert_eq!(f.pts_ns, Some(1000000));
}

#[test]
fn scaling_processor_low_detail() {
    let mut p = scaler(TokenPreset::P2_56_Long640, 1920 * 1080 * 4);
    let out = p.initialize(Size { w: 1920, h: 1080 });
    assert_eq!((out.w, out.h), (640, 360));
    let f = p.process_frame(test_frame(1920, 1080)).unwrap();
    assert_eq!((f.width, f.height), (640, 360));
    assert_eq!(f.stride, 640 * 4);
    assert_eq!(f.data.len(), 640 * 360 * 4);
    assert_eq!(f.pts_ns, Some(1000000));
}

#[test]
fn scaling_processor_balanced() {
    let mut p = scaler(TokenPreset::P4_Long640, 1024 * 768 * 4);
    let out = p.initialize(Size { w: 1024, h: 768 });
    assert_eq!((out.w, out.h), (640, 480));
    let f = p.process_frame(test_frame(1024, 768)).unwrap();
    assert_eq!((f.width, f.height, f.stride), (640, 480, 640 * 4));
    assert_eq!(f.data.len(), 640 * 480 * 4);
}

#[test]
fn scaling_processor_high_detail() {
    let mut p = scaler(TokenPreset::P9_Long640, 1344 * 756 * 4);
    let out = p.initialize(Size { w: 1344, h: 756 });
    assert_eq!((out.w, out.h), (640, 360));
    let f = p.process_frame(test_frame(1344, 756)).unwrap();
    assert_eq!((f.width, f.height), (640, 360));
    assert_eq!(f.data.len(), 640 * 360 * 4);
}

#[test]
fn scaling_processor_uninitialized_error() {
    let mut p = scaler(TokenPreset::P4_Long640, 640 * 480 * 4);
    let msg = match p.process_frame(test_frame(640, 480)) {
        Ok(_) => panic!("an uninitialized processor scaled a frame"),
        Err(e) => e.to_string(),
    };
    assert!(msg.contains("Output buffer too small") || msg.contains("uninitialized"));
}

#[test]
fn scaling_processor_preserves_timestamp() {
    let mut p = scaler(TokenPreset::P4_Long640, 800 * 600 * 4);
    p.initialize(Size { w: 800, h: 600 });
    let f = p.process_frame(test_frame(800, 600)).unwrap();
    assert_eq!(f.pts_ns, Some(1000000));
    assert_eq!((f.width, f.height), (640, 480));
}

#[test]
fn file_stream_pipeline_and_timestamps() {
    let cfg = StreamConfig { width: 640, height: 480, fps: 25, format: StreamFormat::File { path: "out.mp4".to_string() } };
    assert_eq!(
        file_launch_description(&cfg, "out.mp4"),
        "appsrc name=src is-live=true format=time do-timestamp=true caps=video/x-raw,format=BGRA,width=640,height=480,framerate=25/1 ! videoconvert ! videoscale ! video/x-raw,format=I420 ! x264enc tune=zerolatency speed-preset=veryfast bitrate=4000 ! h264parse ! mp4mux ! filesink location=out.mp4"
    );
    assert_eq!(file_frame_pts(None, 3, 25), 120_000_000);
    assert_eq!(file_frame_pts(Some(5), 3, 25), 5);
}

#[test]
fn session_needs_a_stream_then_a_source() {
    assert_eq!(check_session_parts(0, false).unwrap_err(), "At least one stream must be configured");
    assert_eq!(check_session_parts(0, true).unwrap_err(), "At least one stream must be configured");
    assert_eq!(check_session_parts(2, false).unwrap_err(), "No capture source specified");
    assert!(check_session_parts(1, true).is_ok());
}
