use fast_image_resize::Resizer;
use hybrid_screen_capture::cpu::Staging;
use hybrid_screen_capture::gundam::{
    check_crop_readable, check_gundam_inputs, choose_grid, gundam_pack_cpu, mk_grid, GundamCfg, GundamOutputs, Rect,
};

#[test]
fn grid_follows_the_source_size() {
    assert_eq!(choose_grid(1920, 1080), (2, 2));
    assert_eq!(choose_grid(640, 480), (2, 1));
    assert_eq!(choose_grid(480, 640), (1, 2));
    assert_eq!(choose_grid(4000, 500), (3, 1));
    assert_eq!(choose_grid(5000, 5000), (3, 3));
    assert_eq!(choose_grid(0, 0), (2, 1));
    assert_eq!(choose_grid(1024, 1024), (2, 1));
    assert_eq!(choose_grid(1025, 1024), (2, 1));
    assert_eq!(choose_grid(2049, 3073), (3, 3));
}

#[test]
fn default_tiling_configuration() {
    let cfg = GundamCfg::default();
    assert_eq!(cfg.tile_side, 640);
    assert_eq!(cfg.global_side, 1024);
    assert_eq!(cfg.min_tiles, 2);
    assert_eq!(cfg.max_tiles, 9);
    assert!(cfg.auto_grid);
    assert_eq!(cfg.overlap_permille, 0);
    assert_eq!(cfg.pad_bg, [255, 255, 255, 255]);
}

#[test]
fn grid_rectangles_cover_the_source() {
    let rects = mk_grid(1920, 1080, 2, 2, 0);
    let got: Vec<(u32, u32, u32, u32)> = rects.iter().map(|r| (r.x, r.y, r.w, r.h)).collect();
    assert_eq!(got, vec![(0, 0, 960, 540), (960, 0, 960, 540), (0, 540, 960, 540), (960, 540, 960, 540)]);
    let rects = mk_grid(100, 10, 3, 1, 0);
    let got: Vec<(u32, u32, u32, u32)> = rects.iter().map(|r| (r.x, r.y, r.w, r.h)).collect();
    assert_eq!(got, vec![(0, 0, 34, 10), (34, 0, 34, 10), (68, 0, 32, 10)]);
}

#[test]
fn overlapping_tiles_are_widened_and_clipped() {
    // step 50, overlap 100 per mille = 5 pixels.
    let rects = mk_grid(100, 20, 2, 1, 100);
    let got: Vec<(u32, u32, u32, u32)> = rects.iter().map(|r| (r.x, r.y, r.w, r.h)).collect();
    assert_eq!(got, vec![(0, 0, 55, 20), (45, 0, 55, 20)]);
}

fn gradient(w: u32, h: u32) -> Vec<u8> {
    let mut v = Vec::new();
    for y in 0..h {
        for x in 0..w {
            v.extend_from_slice(&[(x % 256) as u8, (y % 256) as u8, 7, 255]);
        }
    }
    v
}

#[test]
fn gundam_pack_writes_every_tile_and_the_global_view() {
    let cfg = GundamCfg { tile_side: 16, global_side: 32, ..GundamCfg::default() };
    let src = gradient(40, 20);
    let mut t0 = vec![1u8; 16 * 16 * 4];
    let mut t1 = vec![1u8; 16 * 16 * 4];
    let mut spare = vec![1u8; 16 * 16 * 4];
    let mut global = vec![1u8; 32 * 32 * 4];
    let mut staging = Staging::with_capacity(0);
    let mut resizer = Resizer::new();
    let out = GundamOutputs { tiles: vec![&mut t0[..], &mut t1[..], &mut spare[..]], global: &mut global[..] };
    gundam_pack_cpu(&mut resizer, &src, 40, 20, 40 * 4, cfg, &mut staging, out).unwrap();
    // Two tiles of 20 x 20 each, fitted into 16 x 16 with no padding.
    assert!(t0.chunks(4).all(|p| p[3] == 255 && p[2] == 7));
    assert!(t1.chunks(4).all(|p| p[3] == 255 && p[2] == 7));
    assert_eq!(spare, vec![1u8; 16 * 16 * 4]);
    // The 40 x 20 source fills a 32 x 16 band of the global view, white above and below.
    for y in 0..32usize {
        let p = &global[(y * 32) * 4..(y * 32) * 4 + 4];
        if (8..24).contains(&y) {
            assert_eq!(p[2], 7);
        } else {
            assert_eq!(p, [255, 255, 255, 255]);
        }
    }
}

#[test]
fn gundam_pack_reports_a_small_global_buffer() {
    let cfg = GundamCfg { tile_side: 8, global_side: 8, ..GundamCfg::default() };
    let src = gradient(16, 8);
    let mut t0 = vec![0u8; 8 * 8 * 4];
    let mut t1 = vec![0u8; 8 * 8 * 4];
    let mut global = vec![3u8; 10];
    let mut staging = Staging::with_capacity(0);
    let mut resizer = Resizer::new();
    let out = GundamOutputs { tiles: vec![&mut t0[..], &mut t1[..]], global: &mut global[..] };
    let r = gundam_pack_cpu(&mut resizer, &src, 16, 8, 16 * 4, cfg, &mut staging, out);
    assert_eq!(r.unwrap_err().to_string(), "Output buffer too small");
    assert_eq!(global, vec![3u8; 10]);
    assert!(t0.chunks(4).all(|p| p[2] == 7));
}

#[test]
fn very_wide_sources_are_tiled() {
    let w = 1u32 << 24;
    assert_eq!(choose_grid(w, 1), (3, 1));
    let rects = mk_grid(w, 1, 3, 1, 0);
    let spans: Vec<(u32, u32)> = rects.iter().map(|r| (r.x, r.w)).collect();
    assert_eq!(spans, vec![(0, 5592406), (5592406, 5592406), (11184812, 5592404)]);
    assert!(rects.iter().all(|r| r.y == 0 && r.h == 1));
    assert!(check_gundam_inputs(4 << 24, w, 1, 4 << 24, GundamCfg::default()));
}

#[test]
fn tiling_inputs_are_checked() {
    let cfg = GundamCfg::default();
    assert!(check_gundam_inputs(1920 * 4 * 1080, 1920, 1080, 1920 * 4, cfg));
    assert!(!check_gundam_inputs(1920 * 4 * 1080 - 1, 1920, 1080, 1920 * 4, cfg));
    assert!(check_gundam_inputs(2000 * 1080, 1920, 1080, 2000, cfg) == false);
    assert!(!check_gundam_inputs(64, 4, 4, 16, GundamCfg { global_side: 0, ..cfg }));
    let r = Rect { x: 1, y: 1, w: 2, h: 2 };
    // Rows start at 1 * 16 + 4 and 2 * 16 + 4; each is 8 bytes long.
    assert!(check_crop_readable(44, 16, r));
    assert!(!check_crop_readable(43, 16, r));
    assert!(check_crop_readable(0, 16, Rect { x: 5, y: 5, w: 3, h: 0 }));
}

#[test]
fn grid_tiles_cover_each_pixel_once() {
    for (w, h) in [(2049u32, 3u32), (1920, 1080), (5, 2), (4000, 3000)] {
        let (cols, rows) = choose_grid(w, h);
        let rects = mk_grid(w, h, cols, rows, 0);
        assert_eq!(rects.len(), (cols * rows) as usize);
        for r in &rects {
            assert!(r.w >= 1 && r.h >= 1 && r.x + r.w <= w && r.y + r.h <= h);
        }
        let step_w = (w + cols - 1) / cols;
        let step_h = (h + rows - 1) / rows;
        for py in (0..h).step_by(7) {
            for px in (0..w).step_by(13) {
                let hits: Vec<usize> = (0..rects.len())
                    .filter(|&k| {
                        let r = rects[k];
                        r.x <= px && px < r.x + r.w && r.y <= py && py < r.y + r.h
                    })
                    .collect();
                assert_eq!(hits, vec![((py / step_h) * cols + px / step_w) as usize]);
            }
        }
    }
}

#[test]
fn sources_up_to_the_i32_edge_are_tiled() {
    let w = 2_000_000_000u32;
    assert_eq!(choose_grid(w, 1), (3, 1));
    let rects = mk_grid(w, 1, 3, 1, 0);
    let spans: Vec<(u32, u32)> = rects.iter().map(|r| (r.x, r.w)).collect();
    assert_eq!(spans, vec![(0, 666666667), (666666667, 666666667), (1333333334, 666666666)]);
    assert!(check_gundam_inputs(8_000_000_000, w, 1, 8_000_000_000, GundamCfg::default()));
    assert!(!check_gundam_inputs(8_800_000_000, 2_200_000_000, 1, 8_800_000_000, GundamCfg::default()));
}
