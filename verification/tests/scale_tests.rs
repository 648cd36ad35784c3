use fast_image_resize::Resizer;
use hybrid_screen_capture::cpu::{scale_bgra_cpu, ScaleError, Staging};
use hybrid_screen_capture::presets::{build_plan, AspectMode, ScaleTarget, Size, TokenPreset};

#[test]
fn preset_plans_keep_the_aspect_ratio() {
    let p = build_plan(Size { w: 1920, h: 1080 }, TokenPreset::P2_56_Long640.to_target(), AspectMode::Preserve);
    assert_eq!((p.out.w, p.out.h), (640, 360));
    let p = build_plan(Size { w: 1024, h: 768 }, TokenPreset::P4_Long640.to_target(), AspectMode::Preserve);
    assert_eq!((p.out.w, p.out.h), (640, 480));
    let p = build_plan(Size { w: 1344, h: 756 }, TokenPreset::P9_Long640.to_target(), AspectMode::Preserve);
    assert_eq!((p.out.w, p.out.h), (640, 360));
    let p = build_plan(Size { w: 2048, h: 1536 }, TokenPreset::P6_9_Long512.to_target(), AspectMode::Preserve);
    assert_eq!((p.out.w, p.out.h), (512, 384));
    assert!(p.dst_roi.is_none());
}

#[test]
fn long_inputs_are_clamped_to_the_preset_side() {
    let p = build_plan(Size { w: 1000, h: 3001 }, TokenPreset::P6_9_Long512.to_target(), AspectMode::Preserve);
    assert_eq!(p.out.h, 512);
    assert_eq!(p.out.w, 171);
    let p = build_plan(Size { w: 4097, h: 17 }, ScaleTarget::MaxLongSide(640), AspectMode::Preserve);
    assert_eq!((p.out.w, p.out.h), (640, 3));
}

#[test]
fn small_inputs_are_not_upscaled() {
    let p = build_plan(Size { w: 300, h: 200 }, ScaleTarget::MaxLongSide(640), AspectMode::Preserve);
    assert_eq!((p.out.w, p.out.h), (300, 200));
    let p = build_plan(Size { w: 300, h: 200 }, ScaleTarget::Exact(Size { w: 640, h: 640 }), AspectMode::Preserve);
    assert_eq!((p.out.w, p.out.h), (300, 200));
}

#[test]
fn padded_plans_centre_the_picture() {
    let bg = [1, 2, 3, 4];
    let p = build_plan(Size { w: 1920, h: 1080 }, ScaleTarget::Exact(Size { w: 640, h: 640 }), AspectMode::Pad { bg_rgba: bg });
    assert_eq!((p.out.w, p.out.h), (640, 640));
    assert_eq!(p.dst_roi, Some((0, 140, 640, 360)));
    let p = build_plan(Size { w: 1080, h: 1920 }, ScaleTarget::MaxLongSide(512), AspectMode::Pad { bg_rgba: bg });
    assert_eq!((p.out.w, p.out.h), (512, 512));
    assert_eq!(p.dst_roi, Some((112, 0, 288, 512)));
}

#[test]
fn distorted_plans_take_the_target() {
    let p = build_plan(Size { w: 10, h: 1000 }, ScaleTarget::Exact(Size { w: 64, h: 32 }), AspectMode::Distort);
    assert_eq!((p.out.w, p.out.h), (64, 32));
    let p = build_plan(Size { w: 10, h: 1000 }, ScaleTarget::MaxLongSide(100), AspectMode::Distort);
    assert_eq!((p.out.w, p.out.h), (100, 100));
}

#[test]
fn rounding_and_minimum_side() {
    // 1000 x 3 fitted to 100: the short side 0.3 rounds to 0 and is raised to 1.
    let p = build_plan(Size { w: 1000, h: 3 }, ScaleTarget::MaxLongSide(100), AspectMode::Preserve);
    assert_eq!((p.out.w, p.out.h), (100, 1));
    // 1000 x 5 fitted to 100: 0.5 rounds up.
    let p = build_plan(Size { w: 1000, h: 5 }, ScaleTarget::MaxLongSide(100), AspectMode::Preserve);
    assert_eq!((p.out.w, p.out.h), (100, 1));
    let p = build_plan(Size { w: 1000, h: 15 }, ScaleTarget::MaxLongSide(100), AspectMode::Preserve);
    assert_eq!((p.out.w, p.out.h), (100, 2));
}

fn solid(w: u32, h: u32, px: [u8; 4]) -> Vec<u8> {
    let mut v = Vec::new();
    for _ in 0..(w * h) {
        v.extend_from_slice(&px);
    }
    v
}

#[test]
fn scaling_a_solid_picture_keeps_its_colour() {
    let mut resizer = Resizer::new();
    let src = solid(64, 32, [10, 20, 30, 255]);
    let plan = build_plan(Size { w: 64, h: 32 }, ScaleTarget::MaxLongSide(16), AspectMode::Preserve);
    assert_eq!((plan.out.w, plan.out.h), (16, 8));
    let mut dst = vec![0u8; 16 * 8 * 4];
    let r = scale_bgra_cpu(&mut resizer, &src, Size { w: 64, h: 32 }, None, &plan, &mut dst, None);
    assert!(r.is_ok());
    assert!(dst.chunks(4).all(|p| p == [10, 20, 30, 255]));
}

#[test]
fn padding_fills_outside_the_placement() {
    let mut resizer = Resizer::new();
    let src = solid(8, 4, [200, 100, 50, 255]);
    let bg = [0, 0, 0, 7];
    let plan = build_plan(Size { w: 8, h: 4 }, ScaleTarget::Exact(Size { w: 8, h: 8 }), AspectMode::Pad { bg_rgba: bg });
    assert_eq!(plan.dst_roi, Some((0, 2, 8, 4)));
    let mut dst = vec![9u8; 8 * 8 * 4];
    scale_bgra_cpu(&mut resizer, &src, Size { w: 8, h: 4 }, None, &plan, &mut dst, None).unwrap();
    for y in 0..8usize {
        for x in 0..8usize {
            let p = &dst[(y * 8 + x) * 4..(y * 8 + x) * 4 + 4];
            if (2..6).contains(&y) {
                assert_eq!(p, [200, 100, 50, 255]);
            } else {
                assert_eq!(p, bg);
            }
        }
    }
}

#[test]
fn strided_sources_are_compacted_first() {
    let mut resizer = Resizer::new();
    // 2 x 2 picture with rows 12 bytes apart (4 bytes of padding).
    let src = vec![
        1, 1, 1, 1, 2, 2, 2, 2, 0xEE, 0xEE, 0xEE, 0xEE, //
        3, 3, 3, 3, 4, 4, 4, 4, 0xEE, 0xEE, 0xEE, 0xEE,
    ];
    let plan = build_plan(Size { w: 2, h: 2 }, ScaleTarget::MaxLongSide(2), AspectMode::Preserve);
    let mut dst = vec![0u8; 16];
    let mut staging = Staging::with_capacity(0);
    scale_bgra_cpu(&mut resizer, &src, Size { w: 2, h: 2 }, Some(12), &plan, &mut dst, Some(&mut staging)).unwrap();
    assert_eq!(&staging.as_slice()[..16], &[1, 1, 1, 1, 2, 2, 2, 2, 3, 3, 3, 3, 4, 4, 4, 4]);
    assert_eq!(dst, staging.as_slice()[..16].to_vec());
}

#[test]
fn scaling_errors() {
    let mut resizer = Resizer::new();
    let src = solid(4, 4, [1, 2, 3, 4]);
    let plan = build_plan(Size { w: 4, h: 4 }, ScaleTarget::MaxLongSide(4), AspectMode::Preserve);
    let mut small = vec![0u8; 10];
    let e = scale_bgra_cpu(&mut resizer, &src, Size { w: 4, h: 4 }, None, &plan, &mut small, None).unwrap_err();
    assert!(matches!(e, ScaleError::BufferTooSmall));
    assert_eq!(e.to_string(), "Output buffer too small");
    assert_eq!(small, vec![0u8; 10]);
    let mut dst = vec![0u8; 64];
    let e = scale_bgra_cpu(&mut resizer, &src, Size { w: 4, h: 4 }, Some(20), &plan, &mut dst, None).unwrap_err();
    assert!(matches!(e, ScaleError::StrideMismatchAndNoStaging));
    assert_eq!(e.to_string(), "Stride mismatch but no staging buffer provided");
    let e = scale_bgra_cpu(&mut resizer, &src[..20], Size { w: 4, h: 4 }, None, &plan, &mut dst, None).unwrap_err();
    assert!(matches!(e, ScaleError::ImageBuf(_)));
    assert!(e.to_string().starts_with("Image buffer error: "));
    assert_eq!(dst, vec![0u8; 64]);
}

#[test]
fn staging_grows_but_never_shrinks() {
    let mut s = Staging::with_capacity(100);
    assert!(s.as_slice().is_empty());
    s.ensure_len(8);
    assert_eq!(s.as_slice(), &[0u8; 8]);
    s.ensure_len(4);
    assert_eq!(s.as_slice().len(), 8);
}
