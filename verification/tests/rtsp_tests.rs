use hybrid_screen_capture::rtsp::{
    arrange_gundam_composite, check_composite_fits, frame_duration_ns, frame_from_bgra, launch_description, stamp_frame, RtspConfig,
};

#[test]
fn default_rtsp_configuration() {
    let c = RtspConfig::default();
    assert_eq!(c.port, 8554);
    assert_eq!(c.mount, "/cap");
    assert_eq!((c.width, c.height, c.framerate), (1280, 720, 30));
    assert!(c.encoder.is_none());
    assert_eq!(c.appsrc_max_bytes, Some(4 * 1024 * 1024));
}

#[test]
fn launch_description_of_the_default_server() {
    let c = RtspConfig::default();
    assert_eq!(
        launch_description(&c),
        "appsrc name=src is-live=true format=time do-timestamp=true block=true caps=video/x-raw,format=BGRA,width=1280,height=720,framerate=30/1 ! videoconvert ! videoscale ! video/x-raw,format=I420 ! x264enc tune=zerolatency speed-preset=veryfast bitrate=4000 key-int-max=30 bframes=0 ! h264parse ! rtph264pay name=pay0 pt=96 config-interval=1"
    );
    let c = RtspConfig { encoder: Some("nvh264enc".to_string()), width: 640, height: 480, framerate: 10, ..RtspConfig::default() };
    assert!(launch_description(&c).contains("width=640,height=480,framerate=10/1 ! videoconvert ! videoscale ! video/x-raw,format=I420 ! nvh264enc ! rtph264pay"));
}

#[test]
fn frames_are_stamped_by_index() {
    assert_eq!(frame_duration_ns(30), 33_333_333);
    assert_eq!(frame_duration_ns(0), 1_000_000_000);
    let f = frame_from_bgra(vec![0u8; 16], 2, 2, 10, 3);
    assert_eq!(f.stride, 8);
    assert_eq!(f.pts_ns, Some(300_000_000));
    assert_eq!(f.data.len(), 16);
    assert_eq!((f.width, f.height), (2, 2));
}

#[test]
fn synthetic_clock_steps_only_for_unstamped_frames() {
    assert_eq!(stamp_frame(None, 0, 40), (0, 40));
    assert_eq!(stamp_frame(None, 40, 40), (40, 80));
    assert_eq!(stamp_frame(Some(7), 80, 40), (7, 80));
}

#[test]
fn composite_without_tiles_is_the_global_view() {
    let global = vec![5u8; 4 * 4 * 4];
    let (frame, w, h) = arrange_gundam_composite(&[], &global, 2, 4);
    assert_eq!((w, h), (4, 4));
    assert_eq!(frame, global);
}

#[test]
fn composite_puts_the_global_view_at_the_end_of_the_first_row() {
    // Two 2 x 2 tiles and a 4 x 4 global view: a 2 x 2 grid of cells.
    let t0 = vec![10u8; 2 * 2 * 4];
    let t1 = vec![20u8; 2 * 2 * 4];
    let mut global = Vec::new();
    for y in 0..4u8 {
        for x in 0..4u8 {
            global.extend_from_slice(&[x, y, 99, 255]);
        }
    }
    let (frame, w, h) = arrange_gundam_composite(&[t0, t1], &global, 2, 4);
    assert_eq!((w, h), (4, 4));
    assert_eq!(frame.len(), 64);
    let px = |x: usize, y: usize| frame[(y * 4 + x) * 4..(y * 4 + x) * 4 + 4].to_vec();
    assert_eq!(px(0, 0), vec![10, 10, 10, 10]);
    assert_eq!(px(1, 1), vec![10, 10, 10, 10]);
    // Global view sampled every other pixel into cell (1, 0).
    assert_eq!(px(2, 0), vec![0, 0, 99, 255]);
    assert_eq!(px(3, 0), vec![2, 0, 99, 255]);
    assert_eq!(px(3, 1), vec![2, 2, 99, 255]);
    // The second tile goes to the next row.
    assert_eq!(px(0, 2), vec![20, 20, 20, 20]);
    assert_eq!(px(1, 3), vec![20, 20, 20, 20]);
    // The last cell stays white.
    assert_eq!(px(2, 2), vec![255, 255, 255, 255]);
    assert_eq!(px(3, 3), vec![255, 255, 255, 255]);
}

#[test]
fn composite_of_four_tiles_matches_the_documented_layout() {
    let tiles = vec![vec![1u8; 4], vec![2u8; 4], vec![3u8; 4], vec![4u8; 4]];
    let global = vec![9u8; 4];
    let (frame, w, h) = arrange_gundam_composite(&tiles, &global, 1, 1);
    assert_eq!((w, h), (3, 2));
    assert_eq!(
        frame,
        vec![1, 1, 1, 1, 2, 2, 2, 2, 9, 9, 9, 9, 3, 3, 3, 3, 4, 4, 4, 4, 255, 255, 255, 255]
    );
}

#[test]
fn composite_of_short_tiles_leaves_white() {
    let t0 = vec![1u8; 4];
    let (frame, w, h) = arrange_gundam_composite(&[t0], &[], 2, 2);
    assert_eq!((w, h), (4, 2));
    assert_eq!(&frame[0..4], &[1, 1, 1, 1]);
    assert_eq!(&frame[4..8], &[255, 255, 255, 255]);
    assert_eq!(&frame[8..12], &[255, 255, 255, 255]);
}

#[test]
fn composite_sizes_are_checked() {
    assert!(check_composite_fits(4, 640, 1024));
    assert!(check_composite_fits(100_000, 1, 1));
    assert!(!check_composite_fits(9, 20_000, 1024));
    assert!(!check_composite_fits(1, 640, 40_000));
    assert!(check_composite_fits(0, 640, 40_000));
}
