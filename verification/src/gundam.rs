//! Tiling of a frame into a grid of overlapping regions plus a global view,
//! in the input layout of DeepSeek-OCR's "Gundam" mode: n tiles of
//! `tile_side` squared pixels and one global view of `global_side` squared.
use crate::cpu::{
    copy_rows, lemma_rows_at_len, rows_at, rows_readable, rows_readable_at, scale_bgra_cpu, scaled_output,
    canvas_len, is_strided, crop_refused, target_rect, resized_bgra, ScaleError, Staging,
};
use crate::presets::{
    build_plan, lemma_exact_pad_plan_centres_fit, lemma_pad_roi_inside, scaled_side, spec_plan, AspectMode,
    ScalePlan, ScaleTarget, Size,
};
use fast_image_resize::Resizer;
use vstd::prelude::*;

verus! {

/// Tiling parameters.
#[derive(Clone, Copy)]
pub struct GundamCfg {
    /// Side of each square tile (640 for DeepSeek-OCR).
    pub tile_side: u32,
    /// Side of the square global view (1024).
    pub global_side: u32,
    /// Fewest tiles to produce.
    pub min_tiles: u32,
    /// Most tiles to produce.
    pub max_tiles: u32,
    /// Choose the grid from the source size.
    pub auto_grid: bool,
    /// Overlap between neighbouring tiles, in thousandths of a tile step
    /// (0 = no overlap).
    pub overlap_permille: u32,
    /// Padding colour of tiles and global view (BGRA).
    pub pad_bg: [u8; 4],
}

impl Default for GundamCfg {
    /// 640 px tiles, a 1024 px global view, 2 to 9 tiles on an automatic
    /// grid, no overlap, white padding.
    fn default() -> (cfg: Self)
        ensures
            cfg.tile_side == 640,
            cfg.global_side == 1024,
            cfg.min_tiles == 2,
            cfg.max_tiles == 9,
            cfg.auto_grid,
            cfg.overlap_permille == 0,
            cfg.pad_bg == [255u8, 255u8, 255u8, 255u8],
    {
        GundamCfg {
            tile_side: 640,
            global_side: 1024,
            min_tiles: 2,
            max_tiles: 9,
            auto_grid: true,
            overlap_permille: 0,
            pad_bg: [255, 255, 255, 255],
        }
    }
}

/// A rectangle in source pixels.
#[derive(Clone, Copy)]
pub struct Rect {
    pub x: u32,
    pub y: u32,
    pub w: u32,
    pub h: u32,
}

/// `ceil(a / b)`.
pub open spec fn ceil_div(a: int, b: int) -> int {
    (a + b - 1) / b
}

/// `x` clamped to `1..=3`.
pub open spec fn clamp_1_3(x: int) -> int {
    if x < 1 { 1 } else if x > 3 { 3 } else { x }
}

/// The tile grid `(columns, rows)` for a source of `w` by `h` pixels: one
/// tile per started 1024 pixels in each direction, 1 to 3 per direction,
/// and at least two tiles, the extra one along the longer side.
pub open spec fn spec_choose_grid(w: u32, h: u32) -> (u32, u32) {
    let c = clamp_1_3(ceil_div(w as int, 1024));
    let r = clamp_1_3(ceil_div(h as int, 1024));
    if r * c < 2 {
        if w >= h {
            (clamp_1_3(c + 1) as u32, r as u32)
        } else {
            (c as u32, clamp_1_3(r + 1) as u32)
        }
    } else {
        (c as u32, r as u32)
    }
}

/// The automatic grid has one column per started 1024 pixels of width and
/// one row per started 1024 pixels of height, up to three each, and at
/// least two tiles: a source within 1024 by 1024 pixels is cut in two
/// along its longer side (across when square).
pub proof fn lemma_grid_follows_source_size(w: u32, h: u32)
    ensures
        ({
            let (cols, rows) = spec_choose_grid(w, h);
            &&& 1 <= cols <= 3
            &&& 1 <= rows <= 3
            &&& 2 <= cols * rows <= 9
            &&& (cols == 3 <==> w > 2048)
            &&& (rows == 3 <==> h > 2048)
            &&& (1024 < w <= 2048 ==> cols == 2)
            &&& (1024 < h <= 2048 ==> rows == 2)
            &&& (w <= 1024 && h > 1024 ==> cols == 1)
            &&& (h <= 1024 && w > 1024 ==> rows == 1)
            &&& (w <= 1024 && h <= 1024 ==> (cols, rows) == if w >= h { (2u32, 1u32) } else { (1u32, 2u32) })
        }),
{
    let c = clamp_1_3(ceil_div(w as int, 1024));
    let r = clamp_1_3(ceil_div(h as int, 1024));
    assert(r * c < 2 <==> (r == 1 && c == 1)) by (nonlinear_arith)
        requires 1 <= r <= 3, 1 <= c <= 3;
    let (cols, rows) = spec_choose_grid(w, h);
    assert(2 <= cols * rows <= 9) by (nonlinear_arith)
        requires 1 <= cols <= 3, 1 <= rows <= 3, (cols >= 2 || rows >= 2);
}

/// Chooses the tile grid `(columns, rows)` for a source of `in_w` by `in_h`
/// pixels.
pub fn choose_grid(in_w: u32, in_h: u32) -> (r: (u32, u32))
    ensures
        r == spec_choose_grid(in_w, in_h),
        1 <= r.0 <= 3,
        1 <= r.1 <= 3,
        2 <= r.0 * r.1 <= 9,
{
    let mut cols: u32 = ((in_w as u64 + 1023) / 1024) as u32;
    let mut rows: u32 = ((in_h as u64 + 1023) / 1024) as u32;
    cols = if cols < 1 { 1 } else if cols > 3 { 3 } else { cols };
    rows = if rows < 1 { 1 } else if rows > 3 { 3 } else { rows };
    assert(rows * cols <= 9) by (nonlinear_arith)
        requires 1 <= cols <= 3, 1 <= rows <= 3;
    let mut n = rows * cols;
    if n < 2 {
        assert(rows == 1 && cols == 1) by (nonlinear_arith)
            requires 1 <= cols <= 3, 1 <= rows <= 3, rows * cols < 2;
        if in_w >= in_h {
            cols = if cols + 1 > 3 { 3 } else { cols + 1 };
        } else {
            rows = if rows + 1 > 3 { 3 } else { rows + 1 };
        }
        assert(rows * cols == 2) by (nonlinear_arith)
            requires (rows == 1 && cols == 2) || (rows == 2 && cols == 1);
        n = rows * cols;
    }
    if n > 9 {
        if in_w >= in_h {
            cols = 3;
            rows = 3;
        } else {
            rows = 3;
            cols = 3;
        }
    }
    assert(2 <= cols * rows <= 9) by (nonlinear_arith)
        requires 1 <= cols <= 3, 1 <= rows <= 3, rows * cols >= 2;
    (cols, rows)
}

/// Overlap in pixels for a tile step.
pub open spec fn overlap_px(step: int, permille: int) -> int {
    step * permille / 1000
}

/// `v` clamped to `0..=hi`.
pub open spec fn clamp_0(v: int, hi: int) -> int {
    if v < 0 { 0 } else if v > hi { hi } else { v }
}

/// The interval `[lo, hi)` of tile `i` along one axis of `len` pixels,
/// with tiles of `step` pixels widened by `ov` on both sides and clipped to
/// the source; at least one pixel long.
pub open spec fn tile_span(i: int, step: int, ov: int, len: int) -> (int, int) {
    let lo = clamp_0(i * step - ov, len);
    let hi = clamp_0((i + 1) * step + ov, len);
    (lo, if hi - lo < 1 { 1 } else { hi - lo })
}

/// The rectangle of the tile at row `r`, column `c`.
pub open spec fn grid_rect(in_w: u32, in_h: u32, cols: u32, rows: u32, permille: u32, r: int, c: int) -> Rect {
    let step_w = ceil_div(in_w as int, cols as int);
    let step_h = ceil_div(in_h as int, rows as int);
    let (x, w) = tile_span(c, step_w, overlap_px(step_w, permille as int), in_w as int);
    let (y, h) = tile_span(r, step_h, overlap_px(step_h, permille as int), in_h as int);
    Rect { x: x as u32, y: y as u32, w: w as u32, h: h as u32 }
}

/// The rectangles of one row of the grid, left to right.
pub open spec fn grid_row(in_w: u32, in_h: u32, cols: u32, rows: u32, permille: u32, r: int) -> Seq<Rect> {
    Seq::new(cols as nat, |c: int| grid_rect(in_w, in_h, cols, rows, permille, r, c))
}

/// All rectangles of the grid, row by row.
pub open spec fn spec_grid(in_w: u32, in_h: u32, cols: u32, rows: u32, permille: u32) -> Seq<Rect> {
    Seq::new(rows as nat, |r: int| grid_row(in_w, in_h, cols, rows, permille, r)).flatten()
}

/// Whether `rect` covers pixel `(px, py)`.
pub open spec fn rect_contains(rect: Rect, px: int, py: int) -> bool {
    &&& rect.x <= px < rect.x + rect.w
    &&& rect.y <= py < rect.y + rect.h
}

/// A flattened sequence of rows of equal length `m` holds element `c` of
/// row `r` at `r * m + c`.
proof fn lemma_flatten_uniform<A>(s: Seq<Seq<A>>, m: int)
    requires
        m >= 0,
        forall|i: int| 0 <= i < s.len() ==> (#[trigger] s[i]).len() == m,
    ensures
        s.flatten().len() == s.len() * m,
        forall|r: int, c: int| 0 <= r < s.len() && 0 <= c < m ==> s.flatten()[r * m + c] == #[trigger] s[r][c],
    decreases s.len(),
{
    if s.len() > 0 {
        let t = s.drop_first();
        lemma_flatten_uniform(t, m);
        assert(s.flatten() == s.first() + t.flatten());
        assert(s.len() * m == m + t.len() * m) by (nonlinear_arith)
            requires s.len() == t.len() + 1;
        assert forall|r: int, c: int| 0 <= r < s.len() && 0 <= c < m implies s.flatten()[r * m + c] == #[trigger] s[r][c] by {
            assert(s.first().len() == m) by {
                assert(s[0].len() == m);
            }
            if r > 0 {
                assert(r * m + c == m + ((r - 1) * m + c)) by (nonlinear_arith);
                assert(0 <= (r - 1) * m) by (nonlinear_arith)
                    requires r >= 1, m >= 0;
                assert((r - 1) * m + c < t.len() * m) by (nonlinear_arith)
                    requires r - 1 < t.len(), c < m, 0 <= c;
                assert(t[r - 1] == s[r]);
                assert(t.flatten()[(r - 1) * m + c] == t[r - 1][c]);
            } else {
                assert(r * m + c == c) by (nonlinear_arith)
                    requires r == 0;
                assert(s.first()[c] == s[0][c]);
            }
        }
    }
}

/// Along one axis of `len` pixels cut into `n` spans of `ceil(len / n)`
/// pixels without overlap, span `i` starts at `i * step`, lies inside the
/// axis, and holds exactly the pixels `p` with `p / step == i`.
proof fn lemma_axis_spans(len: int, n: int, i: int)
    requires
        1 <= n <= len,
        (n - 1) * ceil_div(len, n) < len,
        0 <= i < n,
    ensures
        ({
            let step = ceil_div(len, n);
            let (lo, w) = tile_span(i, step, overlap_px(step, 0), len);
            &&& step >= 1
            &&& lo == i * step
            &&& w >= 1
            &&& lo + w <= len
            &&& forall|p: int| 0 <= p < len ==> (lo <= p < lo + w <==> #[trigger] (p / step) == i)
            &&& forall|p: int| 0 <= p < len ==> #[trigger] (p / step) < n
        }),
{
    let step = ceil_div(len, n);
    assert(step >= 1) by (nonlinear_arith)
        requires step == (len + n - 1) / n, 1 <= n <= len;
    assert(n * step >= len) by (nonlinear_arith)
        requires step == (len + n - 1) / n, n >= 1;
    assert(overlap_px(step, 0) == 0);
    assert(0 <= i * step <= (n - 1) * step) by (nonlinear_arith)
        requires 0 <= i <= n - 1, step >= 1;
    assert((i + 1) * step == i * step + step) by (nonlinear_arith);
    let (lo, w) = tile_span(i, step, 0, len);
    assert(lo == i * step);
    assert forall|p: int| 0 <= p < len implies (lo <= p < lo + w <==> #[trigger] (p / step) == i) by {
        vstd::arithmetic::div_mod::lemma_fundamental_div_mod(p, step);
        let q = p / step;
        assert(0 <= p % step < step);
        assert(p == step * q + p % step);
        if q == i {
            assert(step * q == i * step) by (nonlinear_arith)
                requires q == i;
        }
        if lo <= p < lo + w {
            assert(i * step <= p < (i + 1) * step);
            assert(q == i) by (nonlinear_arith)
                requires i * step <= p, p < (i + 1) * step, p == step * q + p % step, 0 <= p % step < step, step >= 1;
        }
    }
    assert forall|p: int| 0 <= p < len implies #[trigger] (p / step) < n by {
        vstd::arithmetic::div_mod::lemma_fundamental_div_mod(p, step);
        assert(p / step < n) by (nonlinear_arith)
            requires p < len, len <= n * step, p == step * (p / step) + p % step, 0 <= p % step, step >= 1;
    }
}

/// The automatic grid's spans all start inside a source at least as large
/// as the grid: three columns (or rows) come only from sides above 2048
/// pixels.
proof fn lemma_grid_steps(in_w: u32, in_h: u32)
    requires
        spec_choose_grid(in_w, in_h).0 <= in_w,
        spec_choose_grid(in_w, in_h).1 <= in_h,
    ensures
        ({
            let (cols, rows) = spec_choose_grid(in_w, in_h);
            &&& 1 <= cols <= 3
            &&& 1 <= rows <= 3
            &&& (cols - 1) * ceil_div(in_w as int, cols as int) < in_w
            &&& (rows - 1) * ceil_div(in_h as int, rows as int) < in_h
        }),
{
    let (cols, rows) = spec_choose_grid(in_w, in_h);
    let w = in_w as int;
    let h = in_h as int;
    let cw = cols as int;
    let rh = rows as int;
    let c0 = clamp_1_3(ceil_div(w, 1024));
    let r0 = clamp_1_3(ceil_div(h, 1024));
    assert(r0 * c0 < 2 ==> r0 == 1 && c0 == 1) by (nonlinear_arith)
        requires 1 <= r0 <= 3, 1 <= c0 <= 3;
    assert(cw == 3 ==> w > 2048);
    assert(rh == 3 ==> h > 2048);
    let step_w = ceil_div(w, cw);
    let step_h = ceil_div(h, rh);
    assert((cw - 1) * step_w < w) by (nonlinear_arith)
        requires 1 <= cw <= 3, cw <= w, cw == 3 ==> w > 2048, step_w == (w + cw - 1) / cw;
    assert((rh - 1) * step_h < h) by (nonlinear_arith)
        requires 1 <= rh <= 3, rh <= h, rh == 3 ==> h > 2048, step_h == (h + rh - 1) / rh;
}

/// Tile `k` of a grid is the rectangle of row `k / cols`, column
/// `k % cols`.
proof fn lemma_grid_index(in_w: u32, in_h: u32, cols: u32, rows: u32, permille: u32, k: int)
    requires
        1 <= cols,
        0 <= k < cols * rows,
    ensures
        spec_grid(in_w, in_h, cols, rows, permille).len() == cols * rows,
        0 <= k / (cols as int) < rows,
        0 <= k % (cols as int) < cols,
        k == (k / (cols as int)) * cols + k % (cols as int),
        spec_grid(in_w, in_h, cols, rows, permille)[k] == grid_rect(
            in_w,
            in_h,
            cols,
            rows,
            permille,
            k / (cols as int),
            k % (cols as int),
        ),
{
    let cw = cols as int;
    let rh = rows as int;
    let rows_seq = Seq::new(rows as nat, |r: int| grid_row(in_w, in_h, cols, rows, permille, r));
    lemma_flatten_uniform(rows_seq, cw);
    assert(rh * cw == cw * rh) by (nonlinear_arith);
    let r = k / cw;
    let c = k % cw;
    vstd::arithmetic::div_mod::lemma_fundamental_div_mod(k, cw);
    assert(0 <= r < rh) by (nonlinear_arith)
        requires 0 <= k < cw * rh, k == cw * r + c, 0 <= c < cw, cw >= 1;
    assert(k == r * cw + c) by (nonlinear_arith)
        requires k == cw * r + c;
    assert(rows_seq[r][c] == grid_rect(in_w, in_h, cols, rows, permille, r, c));
}

/// Without overlap, the automatic grid cuts a source at least as large as
/// the grid into tiles that lie inside it, are never empty, and cover
/// every pixel exactly once: pixel `(px, py)` lies in the tile of its cell
/// (`px / step_w`, `py / step_h`) and in no other.
pub proof fn lemma_grid_tiles_partition_source(in_w: u32, in_h: u32)
    requires
        spec_choose_grid(in_w, in_h).0 <= in_w,
        spec_choose_grid(in_w, in_h).1 <= in_h,
    ensures
        ({
            let (cols, rows) = spec_choose_grid(in_w, in_h);
            let g = spec_grid(in_w, in_h, cols, rows, 0);
            let step_w = ceil_div(in_w as int, cols as int);
            let step_h = ceil_div(in_h as int, rows as int);
            &&& g.len() == cols * rows
            &&& forall|k: int|
                0 <= k < g.len() ==> {
                    &&& (#[trigger] g[k]).w >= 1
                    &&& g[k].h >= 1
                    &&& g[k].x + g[k].w <= in_w
                    &&& g[k].y + g[k].h <= in_h
                }
            &&& forall|px: int, py: int|
                0 <= px < in_w && 0 <= py < in_h ==> #[trigger] ((py / step_h) * cols + px / step_w) < g.len()
            &&& forall|px: int, py: int, k: int|
                0 <= px < in_w && 0 <= py < in_h && 0 <= k < g.len() ==> (#[trigger] rect_contains(g[k], px, py)
                    <==> k == (py / step_h) * cols + px / step_w)
        }),
{
    let (cols, rows) = spec_choose_grid(in_w, in_h);
    let g = spec_grid(in_w, in_h, cols, rows, 0);
    let w = in_w as int;
    let h = in_h as int;
    let cw = cols as int;
    let rh = rows as int;
    let step_w = ceil_div(w, cw);
    let step_h = ceil_div(h, rh);
    lemma_grid_steps(in_w, in_h);
    assert(cw * rh >= 1) by (nonlinear_arith)
        requires 1 <= cw, 1 <= rh;
    lemma_grid_index(in_w, in_h, cols, rows, 0, 0);
    assert forall|k: int| 0 <= k < g.len() implies {
        &&& (#[trigger] g[k]).w >= 1
        &&& g[k].h >= 1
        &&& g[k].x + g[k].w <= in_w
        &&& g[k].y + g[k].h <= in_h
    } by {
        lemma_grid_index(in_w, in_h, cols, rows, 0, k);
        lemma_axis_spans(w, cw, k % cw);
        lemma_axis_spans(h, rh, k / cw);
    }
    assert forall|px: int, py: int| 0 <= px < in_w && 0 <= py < in_h implies #[trigger] ((py / step_h) * cols + px
        / step_w) < g.len() by {
        lemma_axis_spans(w, cw, 0);
        lemma_axis_spans(h, rh, 0);
        let c = px / step_w;
        let r = py / step_h;
        assert(c < cw && r < rh);
        assert(0 <= c && 0 <= r) by (nonlinear_arith)
            requires 0 <= px, 0 <= py, step_w >= 1, step_h >= 1, c == px / step_w, r == py / step_h;
        assert(r * cw + c < cw * rh) by (nonlinear_arith)
            requires 0 <= c < cw, 0 <= r < rh;
    }
    assert forall|px: int, py: int, k: int| 0 <= px < in_w && 0 <= py < in_h && 0 <= k < g.len() implies (
    #[trigger] rect_contains(g[k], px, py) <==> k == (py / step_h) * cols + px / step_w) by {
        lemma_grid_pixel(in_w, in_h, px, py, k);
    }
}

/// Pixel `(px, py)` lies in tile `k` of the automatic grid without
/// overlap exactly when `k` is the pixel's cell.
proof fn lemma_grid_pixel(in_w: u32, in_h: u32, px: int, py: int, k: int)
    requires
        spec_choose_grid(in_w, in_h).0 <= in_w,
        spec_choose_grid(in_w, in_h).1 <= in_h,
        0 <= px < in_w,
        0 <= py < in_h,
        0 <= k < spec_choose_grid(in_w, in_h).0 * spec_choose_grid(in_w, in_h).1,
    ensures
        ({
            let (cols, rows) = spec_choose_grid(in_w, in_h);
            let step_w = ceil_div(in_w as int, cols as int);
            let step_h = ceil_div(in_h as int, rows as int);
            rect_contains(spec_grid(in_w, in_h, cols, rows, 0)[k], px, py) <==> k == (py / step_h) * cols + px
                / step_w
        }),
{
    let (cols, rows) = spec_choose_grid(in_w, in_h);
    let cw = cols as int;
    let rh = rows as int;
    let step_w = ceil_div(in_w as int, cw);
    let step_h = ceil_div(in_h as int, rh);
    lemma_grid_steps(in_w, in_h);
    lemma_grid_index(in_w, in_h, cols, rows, 0, k);
    let r = k / cw;
    let c = k % cw;
    lemma_axis_spans(in_w as int, cw, c);
    lemma_axis_spans(in_h as int, rh, r);
    let pc = px / step_w;
    let pr = py / step_h;
    assert(rect_contains(spec_grid(in_w, in_h, cols, rows, 0)[k], px, py) <==> (pc == c && pr == r));
    assert(0 <= pc && 0 <= pr) by (nonlinear_arith)
        requires 0 <= px, 0 <= py, step_w >= 1, step_h >= 1, pc == px / step_w, pr == py / step_h;
    if k == pr * cw + pc {
        assert(pc < cw) by {
            lemma_axis_spans(in_w as int, cw, 0);
        }
        vstd::arithmetic::div_mod::lemma_fundamental_div_mod_converse(k, cw, pr, pc);
    }
}

/// Along one axis, overlap widens a span by `ov` on both sides, clipped to
/// the axis.
proof fn lemma_axis_overlap(len: int, n: int, i: int, ov: int)
    requires
        1 <= n <= len,
        (n - 1) * ceil_div(len, n) < len,
        0 <= i < n,
        ov >= 0,
    ensures
        ({
            let step = ceil_div(len, n);
            let (lo, w) = tile_span(i, step, 0, len);
            let (lo2, w2) = tile_span(i, step, ov, len);
            &&& lo2 == if lo - ov < 0 { 0 } else { lo - ov }
            &&& lo2 + w2 == if lo + w + ov > len { len } else { lo + w + ov }
        }),
{
    lemma_axis_spans(len, n, i);
    let step = ceil_div(len, n);
    assert(overlap_px(step, 0) == 0);
    assert((i + 1) * step == i * step + step) by (nonlinear_arith);
    assert(i * step >= 0) by (nonlinear_arith)
        requires i >= 0, step >= 1;
}

/// With overlap, every tile of the automatic grid is the tile without
/// overlap widened by the overlap (a share of the tile step) on each side
/// and clipped to the source.
pub proof fn lemma_overlap_widens_tiles(in_w: u32, in_h: u32, permille: u32)
    requires
        spec_choose_grid(in_w, in_h).0 <= in_w,
        spec_choose_grid(in_w, in_h).1 <= in_h,
    ensures
        ({
            let (cols, rows) = spec_choose_grid(in_w, in_h);
            let g0 = spec_grid(in_w, in_h, cols, rows, 0);
            let g = spec_grid(in_w, in_h, cols, rows, permille);
            let ovw = ceil_div(in_w as int, cols as int) * permille / 1000;
            let ovh = ceil_div(in_h as int, rows as int) * permille / 1000;
            &&& g.len() == g0.len()
            &&& forall|k: int|
                0 <= k < g.len() ==> {
                    &&& (#[trigger] g[k]).x == if g0[k].x - ovw < 0 { 0 } else { g0[k].x - ovw }
                    &&& g[k].x + g[k].w == if g0[k].x + g0[k].w + ovw > in_w {
                        in_w as int
                    } else {
                        g0[k].x + g0[k].w + ovw
                    }
                    &&& g[k].y == if g0[k].y - ovh < 0 { 0 } else { g0[k].y - ovh }
                    &&& g[k].y + g[k].h == if g0[k].y + g0[k].h + ovh > in_h {
                        in_h as int
                    } else {
                        g0[k].y + g0[k].h + ovh
                    }
                }
        }),
{
    let (cols, rows) = spec_choose_grid(in_w, in_h);
    let cw = cols as int;
    let rh = rows as int;
    lemma_grid_steps(in_w, in_h);
    assert(cw * rh >= 1) by (nonlinear_arith)
        requires 1 <= cw, 1 <= rh;
    lemma_grid_index(in_w, in_h, cols, rows, 0, 0);
    lemma_grid_index(in_w, in_h, cols, rows, permille, 0);
    let g = spec_grid(in_w, in_h, cols, rows, permille);
    assert forall|k: int| 0 <= k < g.len() implies {
        let g0 = spec_grid(in_w, in_h, cols, rows, 0);
        let ovw = ceil_div(in_w as int, cols as int) * permille / 1000;
        let ovh = ceil_div(in_h as int, rows as int) * permille / 1000;
        &&& (#[trigger] g[k]).x == if g0[k].x - ovw < 0 { 0 } else { g0[k].x - ovw }
        &&& g[k].x + g[k].w == if g0[k].x + g0[k].w + ovw > in_w { in_w as int } else { g0[k].x + g0[k].w + ovw }
        &&& g[k].y == if g0[k].y - ovh < 0 { 0 } else { g0[k].y - ovh }
        &&& g[k].y + g[k].h == if g0[k].y + g0[k].h + ovh > in_h { in_h as int } else { g0[k].y + g0[k].h + ovh }
    } by {
        lemma_grid_index(in_w, in_h, cols, rows, 0, k);
        lemma_grid_index(in_w, in_h, cols, rows, permille, k);
        let stw = ceil_div(in_w as int, cw);
        let sth = ceil_div(in_h as int, rh);
        assert(stw * permille >= 0 && sth * permille >= 0) by (nonlinear_arith)
            requires stw >= 0, sth >= 0, permille >= 0;
        lemma_axis_spans(in_w as int, cw, 0);
        lemma_axis_spans(in_h as int, rh, 0);
        lemma_axis_overlap(in_w as int, cw, k % cw, overlap_px(stw, permille as int));
        lemma_axis_overlap(in_h as int, rh, k / cw, overlap_px(sth, permille as int));
        lemma_axis_spans(in_w as int, cw, k % cw);
        lemma_axis_spans(in_h as int, rh, k / cw);
    }
}

/// Grids whose tile arithmetic stays within 32-bit signed integers: the
/// far edge of the last widened tile, `cols` steps plus the overlap (and
/// likewise down the rows), fits an `i32`.
pub open spec fn grid_fits(in_w: u32, in_h: u32, cols: u32, rows: u32, permille: u32) -> bool {
    &&& 1 <= cols <= 3
    &&& 1 <= rows <= 3
    &&& overlap_px(ceil_div(in_w as int, cols as int), permille as int) + cols * ceil_div(in_w as int, cols as int)
        <= i32::MAX
    &&& overlap_px(ceil_div(in_h as int, rows as int), permille as int) + rows * ceil_div(in_h as int, rows as int)
        <= i32::MAX
}

/// One tile interval along an axis.
fn span(i: i64, step: i64, ov: i64, len: i64) -> (r: (u32, u32))
    requires
        0 <= i <= 2,
        0 <= step,
        0 <= ov,
        0 <= len <= u32::MAX,
        ov + (i + 1) * step <= i32::MAX,
    ensures
        r.0 == tile_span(i as int, step as int, ov as int, len as int).0,
        r.1 == tile_span(i as int, step as int, ov as int, len as int).1,
{
    assert(0 <= i * step <= (i + 1) * step) by (nonlinear_arith)
        requires 0 <= i <= 2, 0 <= step;
    assert((i + 1) * step == i * step + step) by (nonlinear_arith);
    let a = i * step - ov;
    let b = (i + 1) * step + ov;
    let lo = if a < 0 { 0 } else if a > len { len } else { a };
    let hi = if b < 0 { 0 } else if b > len { len } else { b };
    let n = if hi - lo < 1 { 1 } else { hi - lo };
    (lo as u32, n as u32)
}

/// The tile rectangles of a `cols` by `rows` grid over an `in_w` by `in_h`
/// source, row by row, each tile widened by the overlap and clipped to the
/// source.
pub fn mk_grid(in_w: u32, in_h: u32, cols: u32, rows: u32, overlap_permille: u32) -> (rects: Vec<Rect>)
    requires
        grid_fits(in_w, in_h, cols, rows, overlap_permille),
    ensures
        rects@ == spec_grid(in_w, in_h, cols, rows, overlap_permille),
{
    assert(cols * rows <= 9) by (nonlinear_arith)
        requires 1 <= cols <= 3, 1 <= rows <= 3;
    let mut rects: Vec<Rect> = Vec::with_capacity((cols * rows) as usize);
    let step_w: i64 = ((in_w as i64 + cols as i64 - 1) / cols as i64);
    let step_h: i64 = ((in_h as i64 + rows as i64 - 1) / rows as i64);
    let ovw: i64 = step_w * overlap_permille as i64 / 1000;
    let ovh: i64 = step_h * overlap_permille as i64 / 1000;
    let ghost rows_seq = Seq::new(rows as nat, |r: int| grid_row(in_w, in_h, cols, rows, overlap_permille, r));
    let mut r: u32 = 0;
    while r < rows
        invariant
            grid_fits(in_w, in_h, cols, rows, overlap_permille),
            r <= rows,
            step_w == ceil_div(in_w as int, cols as int),
            step_h == ceil_div(in_h as int, rows as int),
            ovw == overlap_px(step_w as int, overlap_permille as int),
            ovh == overlap_px(step_h as int, overlap_permille as int),
            rows_seq == Seq::new(rows as nat, |r: int| grid_row(in_w, in_h, cols, rows, overlap_permille, r)),
            rects@ == rows_seq.take(r as int).flatten(),
        decreases rows - r,
    {
        let ghost before = rects@;
        let mut c: u32 = 0;
        while c < cols
            invariant
                grid_fits(in_w, in_h, cols, rows, overlap_permille),
                r < rows,
                c <= cols,
                step_w == ceil_div(in_w as int, cols as int),
                step_h == ceil_div(in_h as int, rows as int),
                ovw == overlap_px(step_w as int, overlap_permille as int),
                ovh == overlap_px(step_h as int, overlap_permille as int),
                rects@ == before + grid_row(in_w, in_h, cols, rows, overlap_permille, r as int).take(c as int),
            decreases cols - c,
        {
            assert((c + 1) * step_w <= cols * step_w && (r + 1) * step_h <= rows * step_h) by (nonlinear_arith)
                requires c < cols, r < rows, step_w >= 0, step_h >= 0;
            let (x, w) = span(c as i64, step_w, ovw, in_w as i64);
            let (y, h) = span(r as i64, step_h, ovh, in_h as i64);
            rects.push(Rect { x, y, w, h });
            assert(grid_row(in_w, in_h, cols, rows, overlap_permille, r as int).take(c + 1) =~= grid_row(
                in_w,
                in_h,
                cols,
                rows,
                overlap_permille,
                r as int,
            ).take(c as int).push(Rect { x, y, w, h }));
            c += 1;
        }
        proof {
            assert(grid_row(in_w, in_h, cols, rows, overlap_permille, r as int).take(cols as int) =~= grid_row(
                in_w,
                in_h,
                cols,
                rows,
                overlap_permille,
                r as int,
            ));
            assert(rows_seq.take(r + 1) =~= rows_seq.take(r as int).push(rows_seq[r as int]));
            rows_seq.take(r as int).lemma_flatten_push(rows_seq[r as int]);
        }
        r += 1;
    }
    assert(rows_seq.take(rows as int) =~= rows_seq);
    rects
}

/// The buffers a tiling writes into: one per tile, each at least
/// `tile_side * tile_side * 4` bytes, and one of at least
/// `global_side * global_side * 4` bytes for the global view.
pub struct GundamOutputs<'a> {
    pub tiles: Vec<&'a mut [u8]>,
    pub global: &'a mut [u8],
}

/// The tiles of a `w` by `h` source: the automatic grid, cut to at most
/// `max_tiles` rectangles.
pub open spec fn tile_rects(w: u32, h: u32, cfg: GundamCfg) -> Seq<Rect> {
    let (cols, rows) = spec_choose_grid(w, h);
    let g = spec_grid(w, h, cols, rows, cfg.overlap_permille);
    if g.len() > cfg.max_tiles { g.take(cfg.max_tiles as int) } else { g }
}

/// A tile's plan: the rectangle fitted into the square tile, padded.
pub open spec fn tile_plan(rect: Rect, cfg: GundamCfg) -> ScalePlan {
    spec_plan(
        Size { w: rect.w, h: rect.h },
        ScaleTarget::Exact(Size { w: cfg.tile_side, h: cfg.tile_side }),
        AspectMode::Pad { bg_rgba: cfg.pad_bg },
    )
}

/// The global view's plan: the whole source fitted into the square global
/// view, padded.
pub open spec fn global_plan(w: u32, h: u32, cfg: GundamCfg) -> ScalePlan {
    spec_plan(
        Size { w, h },
        ScaleTarget::Exact(Size { w: cfg.global_side, h: cfg.global_side }),
        AspectMode::Pad { bg_rgba: cfg.pad_bg },
    )
}

/// A byte past the first `s * s` pixels lies below row `s - 1` of a canvas
/// `s` pixels wide.
proof fn lemma_row_past_canvas(i: int, s: int)
    requires
        s >= 1,
        i >= s * s * 4,
    ensures
        (i / 4) / s >= s,
{
    assert(i / 4 >= s * s) by (nonlinear_arith)
        requires i >= s * s * 4;
    assert((i / 4) / s >= s) by (nonlinear_arith)
        requires i / 4 >= s * s, s >= 1;
}

/// Each tile is scaled by one factor on both sides, never up, to the
/// largest picture that fits the square tile, and placed centred in it;
/// every other byte of the square is the padding colour, and bytes past
/// the square keep what the buffer held.
pub proof fn lemma_tile_is_padded_fit(src: Seq<u8>, pitch: int, rect: Rect, cfg: GundamCfg, before: Seq<u8>)
    requires
        rect.w >= 1,
        rect.h >= 1,
        cfg.tile_side >= 1,
        before.len() >= cfg.tile_side * cfg.tile_side * 4,
    ensures
        ({
            let ts = cfg.tile_side as int;
            let out = tile_output(src, pitch, rect, cfg, before);
            &&& out.len() == before.len()
            &&& tile_plan(rect, cfg).dst_roi matches Some(roi) && {
                let (x, y, pw, ph) = roi;
                let pic = resized_bgra(crop(src, pitch, rect).subrange(0, rect.w * rect.h * 4), rect.w, rect.h, pw, ph);
                &&& 1 <= pw <= ts
                &&& 1 <= ph <= ts
                &&& pw <= rect.w
                &&& ph <= rect.h
                &&& x == (ts - pw) / 2
                &&& y == (ts - ph) / 2
                &&& (pw == ts || ph == ts || (pw == rect.w && ph == rect.h))
                &&& exists|n: int, d: int|
                    0 <= n <= d && 0 < d && pw == #[trigger] scaled_side(rect.w as int, n, d) && ph == scaled_side(
                        rect.h as int,
                        n,
                        d,
                    )
                &&& forall|i: int|
                    0 <= i < before.len() ==> #[trigger] out[i] == {
                        let row = (i / 4) / ts;
                        let col = (i / 4) % ts;
                        if y <= row < y + ph && x <= col < x + pw {
                            pic[((row - y) * pw + (col - x)) * 4 + i % 4]
                        } else if i < ts * ts * 4 {
                            cfg.pad_bg@[i % 4]
                        } else {
                            before[i]
                        }
                    }
            }
        }),
{
    let ts = cfg.tile_side as int;
    let input = Size { w: rect.w, h: rect.h };
    let b = Size { w: cfg.tile_side, h: cfg.tile_side };
    lemma_exact_pad_plan_centres_fit(input, b, cfg.pad_bg);
    let plan = tile_plan(rect, cfg);
    let roi = plan.dst_roi.unwrap();
    let out = tile_output(src, pitch, rect, cfg, before);
    assert(canvas_len(plan) == ts * ts * 4);
    assert(target_rect(plan) == roi);
    assert forall|i: int| 0 <= i < before.len() implies #[trigger] out[i] == {
        let (x, y, pw, ph) = roi;
        let pic = resized_bgra(crop(src, pitch, rect).subrange(0, rect.w * rect.h * 4), rect.w, rect.h, pw, ph);
        let row = (i / 4) / ts;
        let col = (i / 4) % ts;
        if y <= row < y + ph && x <= col < x + pw {
            pic[((row - y) * pw + (col - x)) * 4 + i % 4]
        } else if i < ts * ts * 4 {
            cfg.pad_bg@[i % 4]
        } else {
            before[i]
        }
    } by {
        if i >= ts * ts * 4 {
            lemma_row_past_canvas(i, ts);
        }
    }
}

/// The global view is the whole source scaled by one factor on both sides,
/// never up, to the largest picture that fits the square view, centred in
/// it on a canvas of the padding colour.
pub proof fn lemma_global_view_is_padded_fit(w: u32, h: u32, cfg: GundamCfg)
    requires
        w >= 1,
        h >= 1,
        cfg.global_side >= 1,
    ensures
        ({
            let gs = cfg.global_side as int;
            let plan = global_plan(w, h, cfg);
            &&& plan.out == Size { w: cfg.global_side, h: cfg.global_side }
            &&& plan.aspect == AspectMode::Pad { bg_rgba: cfg.pad_bg }
            &&& plan.dst_roi matches Some(roi) && {
                let (x, y, pw, ph) = roi;
                &&& 1 <= pw <= gs
                &&& 1 <= ph <= gs
                &&& pw <= w
                &&& ph <= h
                &&& x == (gs - pw) / 2
                &&& y == (gs - ph) / 2
                &&& (pw == gs || ph == gs || (pw == w && ph == h))
            }
        }),
{
    lemma_exact_pad_plan_centres_fit(Size { w, h }, Size { w: cfg.global_side, h: cfg.global_side }, cfg.pad_bg);
}

/// Offset of a rectangle's first byte in a source of row pitch `pitch`.
pub open spec fn crop_start(pitch: int, rect: Rect) -> int {
    rect.y * pitch + rect.x * 4
}

/// The pixels of `rect`, tightly packed.
pub open spec fn crop(src: Seq<u8>, pitch: int, rect: Rect) -> Seq<u8> {
    rows_at(src, crop_start(pitch, rect), pitch, rect.w * 4, rect.h as int)
}

/// Every row of `rect` lies inside a source of `src_len` bytes, and the
/// cropped picture's size fits the machine's words.
pub open spec fn crop_readable(src_len: int, pitch: int, rect: Rect) -> bool {
    &&& rows_readable_at(src_len, crop_start(pitch, rect), pitch, rect.w * 4, rect.h as int)
    &&& rect.w * 4 <= usize::MAX
    &&& rect.w * 4 * rect.h <= usize::MAX
}

/// What a tile buffer holds after tiling: the tile's pixels scaled by the
/// tile plan onto the buffer's previous contents.
pub open spec fn tile_output(src: Seq<u8>, pitch: int, rect: Rect, cfg: GundamCfg, before: Seq<u8>) -> Seq<u8> {
    scaled_output(crop(src, pitch, rect), Size { w: rect.w, h: rect.h }, None, tile_plan(rect, cfg), before)
}

/// Copies the pixels of `roi` from a source of row pitch `src_pitch` to the
/// front of `staging`, tightly packed, growing it as needed.
fn compact_crop_to_staging(src: &[u8], src_pitch: usize, roi: Rect, staging: &mut Staging)
    requires
        crop_readable(src@.len() as int, src_pitch as int, roi),
    ensures
        ({
            let n = roi.w * 4 * roi.h;
            &&& final(staging).bytes().len() == if old(staging).bytes().len() >= n {
                old(staging).bytes().len() as int
            } else {
                n
            }
            &&& final(staging).bytes().subrange(0, n) == crop(src@, src_pitch as int, roi)
        }),
{
    let row_bytes = (roi.w as usize) * 4;
    let n = row_bytes * (roi.h as usize);
    staging.ensure_len(n);
    proof {
        staging.lemma_bytes();
        lemma_rows_at_len(src@, crop_start(src_pitch as int, roi), src_pitch as int, row_bytes as int, roi.h as int);
    }
    if roi.h > 0 {
        proof {
            assert(0 <= roi.y * src_pitch <= crop_start(src_pitch as int, roi) + (roi.h - 1) * src_pitch) by (nonlinear_arith)
                requires roi.h >= 1, 0 <= roi.x, 0 <= src_pitch, 0 <= roi.y;
            assert(src@.len() == src.len());
        }
        let start = (roi.y as usize) * src_pitch + (roi.x as usize) * 4;
        assert((roi.h as usize) * row_bytes == n) by (nonlinear_arith)
            requires n == row_bytes * (roi.h as usize);
        copy_rows(src, start, src_pitch, &mut staging.buf, row_bytes, roi.h as usize);
    }
    proof {
        staging.lemma_bytes();
        let c = crop(src@, src_pitch as int, roi);
        assert((roi.h as int) * (row_bytes as int) == n) by (nonlinear_arith)
            requires n == row_bytes * (roi.h as usize);
        assert(staging.bytes().subrange(0, n as int) =~= c);
    }
}

/// What a tiling asks of its source and configuration: the grid arithmetic
/// fits, the plans exist, every tile's rows lie inside the source and the
/// buffer sizes fit the machine's words.
pub open spec fn gundam_inputs_ok(src_len: int, w: u32, h: u32, pitch: usize, cfg: GundamCfg) -> bool {
    let (cols, rows) = spec_choose_grid(w, h);
    let rects = tile_rects(w, h, cfg);
    &&& grid_fits(w, h, cols, rows, cfg.overlap_permille)
    &&& (rects.len() > 0 ==> cfg.tile_side >= 1)
    &&& cfg.global_side >= 1
    &&& cfg.tile_side * cfg.tile_side * 4 <= usize::MAX
    &&& cfg.global_side * cfg.global_side * 4 <= usize::MAX
    &&& w * 4 <= usize::MAX
    &&& w * h * 4 <= usize::MAX
    &&& forall|i: int| 0 <= i < rects.len() ==> crop_readable(src_len, pitch as int, #[trigger] rects[i])
}

/// The tiles and the global view fit their buffers: one buffer of at least
/// `tile_side * tile_side * 4` bytes per tile.
pub open spec fn tile_buffers_ok(tiles: Seq<&mut [u8]>, n: int, cfg: GundamCfg) -> bool {
    &&& tiles.len() >= n
    &&& forall|i: int| 0 <= i < n ==> (*#[trigger] tiles[i])@.len() >= cfg.tile_side * cfg.tile_side * 4
}

/// Cuts the `src_w` by `src_h` BGRA8 picture `src_bgra` (rows `src_stride_bytes`
/// apart) into the tiles of its automatic grid, each scaled and padded into
/// its square tile buffer, and scales the whole picture, padded, into the
/// global buffer.  A global buffer that is too small, or a tightly packed
/// source that is too short, is reported after the tiles are written.
pub fn gundam_pack_cpu(
    resizer: &mut Resizer,
    src_bgra: &[u8],
    src_w: u32,
    src_h: u32,
    src_stride_bytes: usize,
    cfg: GundamCfg,
    staging: &mut Staging,
    out: GundamOutputs,
) -> (r: Result<(), ScaleError>)
    requires
        gundam_inputs_ok(src_bgra@.len() as int, src_w, src_h, src_stride_bytes, cfg),
        tile_buffers_ok(out.tiles@, tile_rects(src_w, src_h, cfg).len() as int, cfg),
        (*out.global)@.len() >= canvas_len(global_plan(src_w, src_h, cfg)) && src_stride_bytes != src_w * 4
            ==> rows_readable(src_bgra@.len() as int, src_stride_bytes as int, src_w * 4, src_h as int),
    ensures
        ({
            let rects = tile_rects(src_w, src_h, cfg);
            &&& forall|i: int|
                0 <= i < rects.len() ==> (*final(#[trigger] out.tiles@[i]))@ == tile_output(
                    src_bgra@,
                    src_stride_bytes as int,
                    rects[i],
                    cfg,
                    (*out.tiles@[i])@,
                )
            &&& forall|i: int|
                rects.len() <= i < out.tiles@.len() ==> (*final(#[trigger] out.tiles@[i]))@ == (*out.tiles@[i])@
        }),
        ({
            let input = Size { w: src_w, h: src_h };
            let plan = global_plan(src_w, src_h, cfg);
            let before = (*old(out.global))@;
            let after = (*final(out.global))@;
            if before.len() < canvas_len(plan) {
                &&& r is Err
                &&& r->Err_0 is BufferTooSmall
                &&& after == before
            } else if !is_strided(input, Some(src_stride_bytes)) && src_bgra@.len() < src_w * src_h * 4 {
                &&& r is Err
                &&& r->Err_0 is ImageBuf
                &&& after == before
            } else {
                &&& r is Ok
                &&& after == scaled_output(src_bgra@, input, Some(src_stride_bytes), plan, before)
            }
        }),
        final(staging).bytes().len() >= old(staging).bytes().len(),
        ({
            let rects = tile_rects(src_w, src_h, cfg);
            let input = Size { w: src_w, h: src_h };
            let after = final(staging).bytes();
            if (*old(out.global))@.len() >= canvas_len(global_plan(src_w, src_h, cfg)) && is_strided(
                input,
                Some(src_stride_bytes),
            ) {
                after.subrange(0, src_w * 4 * src_h) == rows_at(src_bgra@, 0, src_stride_bytes as int, src_w * 4, src_h as int)
            } else if rects.len() > 0 {
                let last = rects[rects.len() - 1];
                after.subrange(0, last.w * 4 * last.h) == crop(src_bgra@, src_stride_bytes as int, last)
            } else {
                after == old(staging).bytes()
            }
        }),
{
    let input = Size { w: src_w, h: src_h };
    let (cols, rows) = choose_grid(src_w, src_h);
    let mut rects = mk_grid(src_w, src_h, cols, rows, cfg.overlap_permille);
    rects.truncate(cfg.max_tiles as usize);
    let ghost all_rects = tile_rects(src_w, src_h, cfg);
    assert(rects@ =~= all_rects);
    let GundamOutputs { tiles, global } = out;
    let mut tiles = tiles;
    let n = rects.len();
    let mut i: usize = 0;
    while i < n
        invariant
            n == rects@.len(),
            rects@ == all_rects,
            all_rects == tile_rects(src_w, src_h, cfg),
            gundam_inputs_ok(src_bgra@.len() as int, src_w, src_h, src_stride_bytes, cfg),
            tile_buffers_ok(out.tiles@, n as int, cfg),
            i <= n,
            tiles@.len() == out.tiles@.len(),
            forall|k: int| 0 <= k < tiles@.len() ==> (*#[trigger] final(tiles@[k]))@ == (*final(out.tiles@[k]))@,
            forall|k: int| i <= k < tiles@.len() ==> (*#[trigger] tiles@[k])@ == (*out.tiles@[k])@,
            forall|k: int|
                0 <= k < i ==> (*#[trigger] tiles@[k])@ == tile_output(
                    src_bgra@,
                    src_stride_bytes as int,
                    all_rects[k],
                    cfg,
                    (*out.tiles@[k])@,
                ),
            staging.bytes().len() >= old(staging).bytes().len(),
            i == 0 ==> staging.bytes() == old(staging).bytes(),
            i > 0 ==> staging.bytes().subrange(0, all_rects[i - 1].w * 4 * all_rects[i - 1].h) == crop(
                src_bgra@,
                src_stride_bytes as int,
                all_rects[i - 1],
            ),
        decreases n - i,
    {
        let r = rects[i];
        proof {
            assert(crop_readable(src_bgra@.len() as int, src_stride_bytes as int, all_rects[i as int]));
            assert((*tiles@[i as int])@.len() >= cfg.tile_side * cfg.tile_side * 4);
            lemma_pad_roi_inside(Size { w: r.w, h: r.h }, ScaleTarget::Exact(Size { w: cfg.tile_side, h: cfg.tile_side }), cfg.pad_bg);
        }
        let plan = build_plan(
            Size { w: r.w, h: r.h },
            ScaleTarget::Exact(Size { w: cfg.tile_side, h: cfg.tile_side }),
            AspectMode::Pad { bg_rgba: cfg.pad_bg },
        );
        compact_crop_to_staging(src_bgra, src_stride_bytes, r, staging);
        proof {
            assert(r.w * r.h * 4 == r.w * 4 * r.h) by (nonlinear_arith);
        }
        let res = scale_bgra_cpu(
            resizer,
            staging.as_slice(),
            Size { w: r.w, h: r.h },
            Some((r.w as usize) * 4),
            &plan,
            &mut *tiles[i],
            None,
        );
        proof {
            let c = crop(src_bgra@, src_stride_bytes as int, r);
            let m = (r.w * r.h * 4) as int;
            lemma_rows_at_len(src_bgra@, crop_start(src_stride_bytes as int, r), src_stride_bytes as int, r.w * 4, r.h as int);
            assert(c.len() == m) by (nonlinear_arith)
                requires c.len() == (r.h as int) * (r.w * 4), m == r.w * r.h * 4;
            assert(staging.bytes().subrange(0, m) =~= c.subrange(0, m));
        }
        match res {
            Err(e) => {
                return Err(e);
            },
            Ok(()) => {},
        }
        i += 1;
    }
    proof {
        assert forall|k: int| 0 <= k < tiles@.len() implies (*final(#[trigger] tiles@[k]))@ == (*tiles@[k])@ by {
            assert(has_resolved(tiles@[k]));
        }
        assert forall|k: int| 0 <= k < n implies (*final(#[trigger] out.tiles@[k]))@ == tile_output(
            src_bgra@,
            src_stride_bytes as int,
            all_rects[k],
            cfg,
            (*out.tiles@[k])@,
        ) by {
            assert((*final(tiles@[k]))@ == (*final(out.tiles@[k]))@);
        }
        assert forall|k: int| n <= k < out.tiles@.len() implies (*final(#[trigger] out.tiles@[k]))@
            == (*out.tiles@[k])@ by {
            assert((*final(tiles@[k]))@ == (*final(out.tiles@[k]))@);
        }
    }
    proof {
        lemma_pad_roi_inside(input, ScaleTarget::Exact(Size { w: cfg.global_side, h: cfg.global_side }), cfg.pad_bg);
    }
    let global_plan = build_plan(
        input,
        ScaleTarget::Exact(Size { w: cfg.global_side, h: cfg.global_side }),
        AspectMode::Pad { bg_rgba: cfg.pad_bg },
    );
    let res = scale_bgra_cpu(resizer, src_bgra, input, Some(src_stride_bytes), &global_plan, global, Some(staging));
    match res {
        Err(e) => Err(e),
        Ok(()) => Ok(()),
    }
}

/// Whether the `rect.h` rows of `rect`, `pitch` bytes apart, lie inside
/// `src_len` bytes and its sizes fit the machine's words: decides
/// [`crop_readable`].
pub fn check_crop_readable(src_len: usize, pitch: usize, rect: Rect) -> (r: bool)
    ensures
        r == crop_readable(src_len as int, pitch as int, rect),
{
    let umax = usize::MAX as u128;
    let row: u128 = (rect.w as u128) * 4;
    assert(row * (rect.h as u128) <= 0x4_0000_0000 * 0xFFFF_FFFFu128) by (nonlinear_arith)
        requires row <= 0x4_0000_0000u128, rect.h <= 0xFFFF_FFFFu128;
    if row > umax || row * (rect.h as u128) > umax {
        return false;
    }
    if rect.h == 0 {
        return true;
    }
    assert((rect.y as u128) * (pitch as u128) <= 0xFFFF_FFFFu128 * 0xFFFF_FFFF_FFFF_FFFFu128
        && ((rect.h - 1) as u128) * (pitch as u128) <= 0xFFFF_FFFFu128 * 0xFFFF_FFFF_FFFF_FFFFu128)
        by (nonlinear_arith)
        requires
            rect.y <= 0xFFFF_FFFFu128,
            rect.h <= 0xFFFF_FFFFu128,
            rect.h >= 1,
            pitch <= 0xFFFF_FFFF_FFFF_FFFFu128,
    ;
    let start: u128 = (rect.y as u128) * (pitch as u128) + (rect.x as u128) * 4;
    let end: u128 = start + ((rect.h - 1) as u128) * (pitch as u128) + row;
    end <= src_len as u128
}

/// Whether `gundam_pack_cpu` accepts a `w` by `h` source of `src_len`
/// bytes with rows `pitch` apart under `cfg`: decides
/// [`gundam_inputs_ok`].
pub fn check_gundam_inputs(src_len: usize, w: u32, h: u32, pitch: usize, cfg: GundamCfg) -> (r: bool)
    ensures
        r == gundam_inputs_ok(src_len as int, w, h, pitch, cfg),
{
    let (cols, rows) = choose_grid(w, h);
    let step_w: u64 = ((w as u64) + (cols as u64) - 1) / (cols as u64);
    let step_h: u64 = ((h as u64) + (rows as u64) - 1) / (rows as u64);
    let ghost aw: int = w + cols - 1;
    let ghost ah: int = h + rows - 1;
    assert(aw / (cols as int) <= aw && ah / (rows as int) <= ah) by (nonlinear_arith)
        requires cols >= 1, rows >= 1, aw >= 0, ah >= 0;
    assert((step_w as u128) * (cfg.overlap_permille as u128) <= 0x1_0000_0004u128 * 0xFFFF_FFFFu128
        && (step_h as u128) * (cfg.overlap_permille as u128) <= 0x1_0000_0004u128 * 0xFFFF_FFFFu128)
        by (nonlinear_arith)
        requires
            step_w <= 0x1_0000_0004u128,
            step_h <= 0x1_0000_0004u128,
            cfg.overlap_permille <= 0xFFFF_FFFFu128,
    ;
    let ovw: u128 = (step_w as u128) * (cfg.overlap_permille as u128) / 1000;
    let ovh: u128 = (step_h as u128) * (cfg.overlap_permille as u128) / 1000;
    let imax = i32::MAX as u128;
    assert((cols as u128) * (step_w as u128) <= 3 * 0x1_0000_0004u128 && (rows as u128) * (step_h as u128) <= 3
        * 0x1_0000_0004u128) by (nonlinear_arith)
        requires
            cols <= 3,
            rows <= 3,
            step_w <= 0x1_0000_0004u128,
            step_h <= 0x1_0000_0004u128,
    ;
    if ovw + (cols as u128) * (step_w as u128) > imax || ovh + (rows as u128) * (step_h as u128) > imax {
        return false;
    }
    let umax = usize::MAX as u128;
    let ts = cfg.tile_side as u128;
    let gs = cfg.global_side as u128;
    assert(ts * ts <= 0xFFFF_FFFFu128 * 0xFFFF_FFFFu128 && gs * gs <= 0xFFFF_FFFFu128 * 0xFFFF_FFFFu128
        && (w as u128) * (h as u128) <= 0xFFFF_FFFFu128 * 0xFFFF_FFFFu128) by (nonlinear_arith)
        requires
            ts <= 0xFFFF_FFFFu128,
            gs <= 0xFFFF_FFFFu128,
            w <= 0xFFFF_FFFFu128,
            h <= 0xFFFF_FFFFu128,
    ;
    if cfg.global_side < 1 || ts * ts * 4 > umax || gs * gs * 4 > umax || (w as u128) * 4 > umax || (w as u128)
        * (h as u128) * 4 > umax {
        return false;
    }
    let mut rects = mk_grid(w, h, cols, rows, cfg.overlap_permille);
    rects.truncate(cfg.max_tiles as usize);
    let ghost all_rects = tile_rects(w, h, cfg);
    assert(rects@ =~= all_rects);
    if rects.len() > 0 && cfg.tile_side < 1 {
        return false;
    }
    let n = rects.len();
    let mut i: usize = 0;
    while i < n
        invariant
            n == rects@.len(),
            rects@ == all_rects,
            all_rects == tile_rects(w, h, cfg),
            i <= n,
            forall|k: int| 0 <= k < i ==> crop_readable(src_len as int, pitch as int, #[trigger] all_rects[k]),
        decreases n - i,
    {
        if !check_crop_readable(src_len, pitch, rects[i]) {
            assert(!crop_readable(src_len as int, pitch as int, all_rects[i as int]));
            return false;
        }
        i += 1;
    }
    true
}

} // verus!
