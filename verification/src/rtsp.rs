//! Frames for RTSP streaming: the frame type, timestamps, the GStreamer
//! launch description of the server pipeline, and the composite frame that
//! shows the Gundam tiles and global view side by side.
use crate::text::{decimal, owned, push_decimal};
use std::sync::Arc;
use vstd::prelude::*;

verus! {

/// A raw BGRA frame ready for streaming.
#[derive(Clone)]
pub struct BgraFrame {
    /// Pixel bytes, `stride * height` of them.
    pub data: Arc<Vec<u8>>,
    /// Width in pixels.
    pub width: u32,
    /// Height in pixels.
    pub height: u32,
    /// Bytes per row (at least `width * 4`).
    pub stride: usize,
    /// Presentation timestamp in nanoseconds; `None` lets the server stamp
    /// the frame.
    pub pts_ns: Option<u64>,
}

/// Configuration of the RTSP server and its encoder.
pub struct RtspConfig {
    /// Server port.
    pub port: u16,
    /// Mount path.
    pub mount: String,
    /// Frame width in pixels.
    pub width: u32,
    /// Frame height in pixels.
    pub height: u32,
    /// Frames per second.
    pub framerate: u32,
    /// GStreamer encoder description; `None` uses low-latency x264.
    pub encoder: Option<String>,
    /// Most bytes queued in the source before it blocks.
    pub appsrc_max_bytes: Option<usize>,
}

impl Default for RtspConfig {
    /// Port 8554, mount `/cap`, 1280 by 720 at 30 frames per second, the
    /// default encoder and a 4 MiB source queue.
    fn default() -> (c: Self)
        ensures
            c.port == 8554,
            c.mount@ == "/cap"@,
            c.width == 1280,
            c.height == 720,
            c.framerate == 30,
            c.encoder is None,
            c.appsrc_max_bytes == Some(4194304usize),
    {
        RtspConfig {
            port: 8554,
            mount: owned("/cap"),
            width: 1280,
            height: 720,
            framerate: 30,
            encoder: None,
            appsrc_max_bytes: Some(4 * 1024 * 1024),
        }
    }
}

/// Nanoseconds per frame at `fps` frames per second (at least one frame
/// per second).
pub open spec fn spec_frame_duration_ns(fps: u32) -> u64 {
    (1_000_000_000u64 / (if fps < 1 { 1u32 } else { fps }) as u64) as u64
}

/// Nanoseconds per frame at `fps` frames per second; a rate of zero counts
/// as one.
pub fn frame_duration_ns(fps: u32) -> (d: u64)
    ensures
        d == spec_frame_duration_ns(fps),
{
    let f: u32 = if fps < 1 { 1 } else { fps };
    1_000_000_000u64 / (f as u64)
}

/// A frame of tightly packed BGRA bytes, the `idx`-th of a stream at `fps`
/// frames per second, stamped `idx` frame durations after the start.
pub fn frame_from_bgra(bytes: Vec<u8>, width: u32, height: u32, fps: u32, idx: u64) -> (f: BgraFrame)
    requires
        width * 4 <= usize::MAX,
        idx * spec_frame_duration_ns(fps) <= u64::MAX,
    ensures
        *f.data == bytes,
        f.width == width,
        f.height == height,
        f.stride == width * 4,
        f.pts_ns == Some((idx * spec_frame_duration_ns(fps)) as u64),
{
    let stride = width as usize * 4;
    let pts_ns = Some(idx * frame_duration_ns(fps));
    BgraFrame { data: Arc::new(bytes), width, height, stride, pts_ns }
}

/// The timestamp a pushed frame gets and the next synthetic timestamp: a
/// frame's own timestamp is kept and leaves the clock alone; a frame
/// without one gets the clock's time, and the clock steps one frame.
pub open spec fn spec_stamp(frame_pts: Option<u64>, next_pts: u64, frame_dur: u64) -> (u64, u64) {
    match frame_pts {
        Some(p) => (p, next_pts),
        None => (next_pts, (next_pts + frame_dur) as u64),
    }
}

/// Stamps a frame pushed to the encoder: returns its timestamp and the
/// next synthetic timestamp.
pub fn stamp_frame(frame_pts: Option<u64>, next_pts: u64, frame_dur: u64) -> (r: (u64, u64))
    requires
        frame_pts is None ==> next_pts + frame_dur <= u64::MAX,
    ensures
        r == spec_stamp(frame_pts, next_pts, frame_dur),
{
    match frame_pts {
        Some(p) => (p, next_pts),
        None => (next_pts, next_pts + frame_dur),
    }
}

/// The synthetic clock after `k` frames without timestamps, started at
/// zero: each takes the clock's time and steps it by one frame.
pub open spec fn clock_after(k: nat, frame_dur: u64) -> u64
    decreases k,
{
    if k == 0 {
        0
    } else {
        spec_stamp(None, clock_after((k - 1) as nat, frame_dur), frame_dur).1
    }
}

/// Unstamped frames are spaced one frame duration apart: the `k`-th gets
/// `k` durations, the time `frame_from_bgra` gives the `k`-th frame of a
/// stream at the same rate, as long as the clock fits in 64 bits.
pub proof fn lemma_synthetic_clock_matches_frame_index(k: nat, fps: u32)
    requires
        (k + 1) * spec_frame_duration_ns(fps) <= u64::MAX,
    ensures
        clock_after(k, spec_frame_duration_ns(fps)) == k * spec_frame_duration_ns(fps),
        spec_stamp(None, clock_after(k, spec_frame_duration_ns(fps)), spec_frame_duration_ns(fps)).0 == k
            * spec_frame_duration_ns(fps),
    decreases k,
{
    let d = spec_frame_duration_ns(fps);
    if k > 0 {
        assert((k as int) * d <= (k + 1) * d) by (nonlinear_arith)
            requires d >= 0;
        lemma_synthetic_clock_matches_frame_index((k - 1) as nat, fps);
        assert(((k - 1) as int) * d + d == (k as int) * d) by (nonlinear_arith);
    }
}

/// The encoder of a configuration: its own, or low-latency x264.
pub open spec fn spec_encoder(cfg: &RtspConfig) -> Seq<char> {
    match cfg.encoder {
        Some(e) => e@,
        None => "x264enc tune=zerolatency speed-preset=veryfast bitrate=4000 key-int-max=30 bframes=0 ! h264parse"@,
    }
}

/// The GStreamer launch description of the server pipeline: a live BGRA
/// source of the configured size and rate, converted to I420, encoded and
/// packed as RTP H.264.
pub open spec fn spec_launch(cfg: &RtspConfig) -> Seq<char> {
    "appsrc name=src is-live=true format=time do-timestamp=true block=true caps=video/x-raw,format=BGRA,width="@
        + decimal(cfg.width as nat) + ",height="@ + decimal(cfg.height as nat) + ",framerate="@ + decimal(
        cfg.framerate as nat,
    ) + "/1 ! videoconvert ! videoscale ! video/x-raw,format=I420 ! "@ + spec_encoder(cfg)
        + " ! rtph264pay name=pay0 pt=96 config-interval=1"@
}

/// The launch description of the server pipeline for `cfg`.
pub fn launch_description(cfg: &RtspConfig) -> (s: String)
    ensures
        s@ == spec_launch(cfg),
{
    let mut s = owned(
        "appsrc name=src is-live=true format=time do-timestamp=true block=true caps=video/x-raw,format=BGRA,width=",
    );
    push_decimal(&mut s, cfg.width as u64);
    s.append(",height=");
    push_decimal(&mut s, cfg.height as u64);
    s.append(",framerate=");
    push_decimal(&mut s, cfg.framerate as u64);
    s.append("/1 ! videoconvert ! videoscale ! video/x-raw,format=I420 ! ");
    match &cfg.encoder {
        Some(e) => s.append(e.as_str()),
        None => s.append(
            "x264enc tune=zerolatency speed-preset=veryfast bitrate=4000 key-int-max=30 bframes=0 ! h264parse",
        ),
    }
    s.append(" ! rtph264pay name=pay0 pt=96 config-interval=1");
    s
}

/// The smallest `c >= start` with `c * c >= m`, searching upwards.
pub open spec fn ceil_sqrt_from(m: int, c: int) -> int
    decreases m - c,
{
    if c < 1 || c * c >= m {
        c
    } else {
        proof {
            assert(c <= c * c) by (nonlinear_arith)
                requires c >= 1;
        }
        ceil_sqrt_from(m, c + 1)
    }
}

/// `ceil(sqrt(m))`, at least one.
pub open spec fn spec_ceil_sqrt(m: int) -> int {
    ceil_sqrt_from(m, 1)
}

/// The search result is a ceiling square root.
proof fn lemma_ceil_sqrt_from(m: int, c: int)
    requires
        c >= 1,
        (c - 1) * (c - 1) < m || c == 1,
    ensures
        ceil_sqrt_from(m, c) >= c,
        ceil_sqrt_from(m, c) * ceil_sqrt_from(m, c) >= m,
        ceil_sqrt_from(m, c) == 1 || (ceil_sqrt_from(m, c) - 1) * (ceil_sqrt_from(m, c) - 1) < m,
    decreases m - c,
{
    if c * c < m {
        assert(c <= c * c) by (nonlinear_arith)
            requires c >= 1;
        lemma_ceil_sqrt_from(m, c + 1);
    }
}

/// `ceil(sqrt(m))`, at least one.
pub(crate) fn ceil_sqrt(m: u32) -> (c: u32)
    ensures
        c == spec_ceil_sqrt(m as int),
        c >= 1,
        c * c >= m,
        c <= 65536,
{
    let mut c: u64 = 1;
    proof {
        lemma_ceil_sqrt_from(m as int, 1);
    }
    while c * c < m as u64
        invariant
            1 <= c <= 65536,
            c * c <= 0x1_0000_0000u64,
            spec_ceil_sqrt(m as int) == ceil_sqrt_from(m as int, c as int),
        decreases 65536 - c,
    {
        assert(c < 65536) by (nonlinear_arith)
            requires c * c < m, m <= 0xFFFF_FFFFu64, c >= 1;
        assert((c + 1) * (c + 1) <= 0x1_0000_0000u64) by (nonlinear_arith)
            requires c < 65536, c >= 1;
        c += 1;
    }
    c as u32
}

/// Columns and rows of the composite grid for `n` tiles plus the global
/// view: as square as possible.
pub open spec fn composite_grid(n: int) -> (int, int) {
    let cols = spec_ceil_sqrt(n + 1);
    let rows = (n + 1 + cols - 1) / cols;
    (cols, if rows < 1 { 1 } else { rows })
}

/// The composite grid of `n` tiles and the global view holds them all, is
/// as square as possible (the fewest columns whose square holds them) and
/// has no empty row.
pub proof fn lemma_composite_grid_is_tight(n: int)
    requires
        n >= 0,
    ensures
        ({
            let (cols, rows) = composite_grid(n);
            &&& cols >= 1
            &&& rows >= 1
            &&& cols * rows >= n + 1
            &&& cols * cols >= n + 1
            &&& (cols == 1 || (cols - 1) * (cols - 1) < n + 1)
            &&& (rows - 1) * cols < n + 1
        }),
{
    lemma_ceil_sqrt_from(n + 1, 1);
    let cols = spec_ceil_sqrt(n + 1);
    let q = (n + 1 + cols - 1) / cols;
    vstd::arithmetic::div_mod::lemma_fundamental_div_mod(n + 1 + cols - 1, cols);
    let m = (n + 1 + cols - 1) % cols;
    assert(cols * q + m == n + cols);
    assert(q >= 1) by (nonlinear_arith)
        requires cols * q + m == n + cols, 0 <= m < cols, n >= 0, cols >= 1;
    assert(cols * q >= n + 1) by (nonlinear_arith)
        requires cols * q + m == n + cols, 0 <= m < cols;
    assert((q - 1) * cols < n + 1) by (nonlinear_arith)
        requires cols * q + m == n + cols, 0 <= m;
    assert(cols * q == q * cols) by (nonlinear_arith);
}

/// The bytes of a BGRA frame as one sequence per frame.
pub open spec fn frame_bytes(tiles: Seq<Vec<u8>>) -> Seq<Seq<u8>> {
    tiles.map_values(|t: Vec<u8>| t@)
}

/// The cell of the composite grid that shows the global view: the last
/// cell of the first row.
pub open spec fn global_cell(cols: int) -> int {
    cols - 1
}

/// The tile shown in cell `k` of the grid (counted row by row), for a cell
/// other than the global view's: the tiles fill the other cells in order.
pub open spec fn tile_of_cell(k: int, cols: int) -> int {
    if k < global_cell(cols) { k } else { k - 1 }
}

/// Byte `ch` of the composite pixel `(px, py)`: the last cell of the first
/// row shows the global view sampled down to the tile size (nearest
/// neighbour), the other cells show the tiles in order, row by row, and
/// anything missing is white.  With four tiles on a grid of three columns:
/// `[T1][T2][G] / [T3][T4][ ]`.
pub open spec fn composite_at(
    tiles: Seq<Seq<u8>>,
    global: Seq<u8>,
    ts: int,
    gs: int,
    cols: int,
    px: int,
    py: int,
    ch: int,
) -> u8 {
    let n = tiles.len() as int;
    let k = (py / ts) * cols + px / ts;
    let x = px % ts;
    let y = py % ts;
    let t = tile_of_cell(k, cols);
    if k == global_cell(cols) {
        let sx = x * gs / ts;
        let sy = y * gs / ts;
        let si = (sy * gs + sx) * 4;
        if sx < gs && sy < gs && si + 3 < global.len() {
            global[si + ch]
        } else {
            255
        }
    } else if t < n {
        let si = (y * ts + x) * 4;
        if si + 3 < tiles[t].len() {
            tiles[t][si + ch]
        } else {
            255
        }
    } else {
        255
    }
}

/// The composite shows every tile as it is, row by row: byte `ch` of pixel
/// `(x, y)` of the cell in grid row `r`, column `c` is byte `ch` of pixel
/// `(x, y)` of the tile shown there (white where the tile is too short or
/// missing).  The last cell of the first row shows the global view
/// sampled at `(x * gs / ts, y * gs / ts)`; the tiles fill the other cells
/// in order.
pub proof fn lemma_composite_shows_tiles_row_by_row(
    tiles: Seq<Seq<u8>>,
    global: Seq<u8>,
    ts: int,
    gs: int,
    cols: int,
    r: int,
    c: int,
    x: int,
    y: int,
    ch: int,
)
    requires
        ts >= 1,
        gs >= 1,
        cols >= 1,
        r >= 0,
        0 <= c < cols,
        0 <= x < ts,
        0 <= y < ts,
        0 <= ch < 4,
    ensures
        ({
            let v = composite_at(tiles, global, ts, gs, cols, c * ts + x, r * ts + y, ch);
            let tile_byte = 4 * (y * ts + x);
            if r == 0 && c == cols - 1 {
                let gi = ((y * gs / ts) * gs + x * gs / ts) * 4;
                v == if gi + 3 < global.len() { global[gi + ch] } else { 255 }
            } else {
                let t = if r == 0 { c } else { r * cols + c - 1 };
                v == if t < tiles.len() && tile_byte + 3 < tiles[t].len() { tiles[t][tile_byte + ch] } else { 255 }
            }
        }),
{
    let px = c * ts + x;
    let py = r * ts + y;
    vstd::arithmetic::div_mod::lemma_fundamental_div_mod_converse(px, ts, c, x);
    vstd::arithmetic::div_mod::lemma_fundamental_div_mod_converse(py, ts, r, y);
    assert(x * gs / ts < gs && y * gs / ts < gs) by {
        assert(x * gs < ts * gs && y * gs < ts * gs) by (nonlinear_arith)
            requires 0 <= x < ts, 0 <= y < ts, gs >= 1;
        vstd::arithmetic::div_mod::lemma_multiply_divide_lt(x * gs, ts, gs);
        vstd::arithmetic::div_mod::lemma_multiply_divide_lt(y * gs, ts, gs);
    }
    assert(0 <= x * gs / ts && 0 <= y * gs / ts) by (nonlinear_arith)
        requires 0 <= x, 0 <= y, gs >= 1, ts >= 1;
    if r > 0 {
        assert(r * cols + c > cols - 1) by (nonlinear_arith)
            requires r >= 1, 0 <= c, cols >= 1;
    }
}

/// Where byte `ch` of pixel `(x, y)` lies in a frame `w` pixels wide.
pub open spec fn pixel_index(w: int, x: int, y: int, ch: int) -> int {
    (y * w + x) * 4 + ch
}

/// `out` is the composite frame, `w` by `h` pixels, of the tiles and the
/// global view.
pub open spec fn is_composite(out: Seq<u8>, w: u32, h: u32, tiles: Seq<Seq<u8>>, global: Seq<u8>, ts: u32, gs: u32) -> bool {
    let (cols, rows) = composite_grid(tiles.len() as int);
    &&& w == cols * ts
    &&& h == rows * ts
    &&& out.len() == w * h * 4
    &&& forall|x: int, y: int, ch: int|
        0 <= x < w && 0 <= y < h && 0 <= ch < 4 ==> out[pixel_index(w as int, x, y, ch)] == #[trigger] composite_at(
            tiles,
            global,
            ts as int,
            gs as int,
            cols,
            x,
            y,
            ch,
        )
}

/// The composite's sizes fit 32-bit pixel arithmetic.
pub open spec fn composite_fits(n: int, ts: u32, gs: u32) -> bool {
    let (cols, rows) = composite_grid(n);
    &&& n + 1 <= u32::MAX
    &&& cols * ts * (rows * ts) * 4 <= u32::MAX
    &&& (n > 0 ==> gs * gs * 4 <= u32::MAX)
}

/// Whether the composite of `n` tiles with cells of `ts` and a global
/// view of `gs` pixels fits 32-bit pixel arithmetic: decides
/// [`composite_fits`].
pub fn check_composite_fits(n: usize, ts: u32, gs: u32) -> (r: bool)
    ensures
        r == composite_fits(n as int, ts, gs),
{
    if n as u64 >= 0xFFFF_FFFFu64 {
        return false;
    }
    let total: u32 = (n + 1) as u32;
    let cols = ceil_sqrt(total);
    let rows0: u64 = (total as u64 + cols as u64 - 1) / (cols as u64);
    assert(rows0 <= total) by (nonlinear_arith)
        requires rows0 == (total + cols - 1) / (cols as int), cols >= 1, total >= 1, cols * cols >= total;
    let rows: u64 = if rows0 < 1 { 1 } else { rows0 };
    assert((cols as u128) * (ts as u128) <= 0x1_0000u128 * 0xFFFF_FFFFu128 && (rows as u128) * (ts as u128)
        <= 0xFFFF_FFFFu128 * 0xFFFF_FFFFu128) by (nonlinear_arith)
        requires
            cols <= 0x1_0000u128,
            rows <= 0xFFFF_FFFFu128,
            ts <= 0xFFFF_FFFFu128,
    ;
    let w: u128 = (cols as u128) * (ts as u128);
    let h: u128 = (rows as u128) * (ts as u128);
    assert(w * h <= (0x1_0000u128 * 0xFFFF_FFFFu128) * (0xFFFF_FFFFu128 * 0xFFFF_FFFFu128)) by (nonlinear_arith)
        requires w <= 0x1_0000u128 * 0xFFFF_FFFFu128, h <= 0xFFFF_FFFFu128 * 0xFFFF_FFFFu128;
    if w * h * 4 > 0xFFFF_FFFFu128 {
        return false;
    }
    assert((gs as u128) * (gs as u128) <= 0xFFFF_FFFFu128 * 0xFFFF_FFFFu128) by (nonlinear_arith)
        requires gs <= 0xFFFF_FFFFu128;
    if n > 0 && (gs as u128) * (gs as u128) * 4 > 0xFFFF_FFFFu128 {
        return false;
    }
    true
}

/// Pixel `(x, y)` of a frame `w` wide lies before pixel `(px, py)`.
pub(crate) proof fn lemma_pixel_before(w: int, x: int, y: int, px: int, py: int, ch: int)
    requires
        0 <= x < w,
        0 <= y,
        0 <= px <= w,
        0 <= ch < 4,
        y < py || (y == py && x < px),
    ensures
        0 <= pixel_index(w, x, y, ch) < (py * w + px) * 4,
{
    assert(0 <= y * w) by (nonlinear_arith)
        requires 0 <= y, 0 <= w;
    if y < py {
        assert((y + 1) * w <= py * w) by (nonlinear_arith)
            requires y + 1 <= py, 0 <= w;
        assert((y + 1) * w == y * w + w) by (nonlinear_arith);
    }
}

/// Arranges the tiles and the global view of a Gundam tiling in one BGRA
/// frame: a grid of `tile_side` squared cells, as square as possible, the
/// global view sampled down to the last cell of the first row, the tiles
/// in order in the other cells row by row, the rest white.  Without tiles the frame is the global view itself.
/// Returns the frame's bytes, width and height.
pub fn arrange_gundam_composite(tiles: &[Vec<u8>], global: &[u8], tile_side: u32, global_side: u32) -> (r: (
    Vec<u8>,
    u32,
    u32,
))
    requires
        composite_fits(tiles@.len() as int, tile_side, global_side),
    ensures
        tiles@.len() == 0 ==> r.0@ == global@ && r.1 == global_side && r.2 == global_side,
        tiles@.len() > 0 ==> is_composite(r.0@, r.1, r.2, frame_bytes(tiles@), global@, tile_side, global_side),
{
    let num_tiles = tiles.len();
    if num_tiles == 0 {
        return (vstd::slice::slice_to_vec(global), global_side, global_side);
    }
    let total: u32 = (num_tiles + 1) as u32;
    let cols = ceil_sqrt(total);
    let rows0: u64 = (total as u64 + cols as u64 - 1) / (cols as u64);
    assert(rows0 <= total) by (nonlinear_arith)
        requires rows0 == (total + cols - 1) / (cols as int), cols >= 1, total >= 1, cols * cols >= total;
    let rows: u32 = if rows0 < 1 { 1 } else { rows0 as u32 };
    let ghost tb = frame_bytes(tiles@);
    assert(cols * tile_side * (rows * tile_side) * 4 <= u32::MAX);
    assert(cols * tile_side <= u32::MAX && rows * tile_side <= u32::MAX) by (nonlinear_arith)
        requires cols * tile_side * (rows * tile_side) * 4 <= u32::MAX, cols >= 1, rows >= 1;
    let frame_width = cols * tile_side;
    let frame_height = rows * tile_side;
    let mut composite: Vec<u8> = Vec::new();
    let mut py: u32 = 0;
    while py < frame_height
        invariant
            composite_fits(num_tiles as int, tile_side, global_side),
            num_tiles == tiles@.len(),
            num_tiles > 0,
            tb == frame_bytes(tiles@),
            (cols as int, rows as int) == composite_grid(num_tiles as int),
            frame_width == cols * tile_side,
            frame_height == rows * tile_side,
            py <= frame_height,
            composite@.len() == (py * frame_width) * 4,
            forall|x: int, y: int, ch: int|
                0 <= x < frame_width && 0 <= y < py && 0 <= ch < 4 ==> composite@[pixel_index(
                    frame_width as int,
                    x,
                    y,
                    ch,
                )] == #[trigger] composite_at(tb, global@, tile_side as int, global_side as int, cols as int, x, y, ch),
        decreases frame_height - py,
    {
        let mut px: u32 = 0;
        while px < frame_width
            invariant
                composite_fits(num_tiles as int, tile_side, global_side),
                num_tiles == tiles@.len(),
                num_tiles > 0,
                tb == frame_bytes(tiles@),
                (cols as int, rows as int) == composite_grid(num_tiles as int),
                frame_width == cols * tile_side,
                frame_height == rows * tile_side,
                py < frame_height,
                px <= frame_width,
                composite@.len() == (py * frame_width + px) * 4,
                forall|x: int, y: int, ch: int|
                    0 <= x < frame_width && 0 <= y <= py && (y < py || x < px) && 0 <= ch < 4
                        ==> composite@[pixel_index(frame_width as int, x, y, ch)] == #[trigger] composite_at(
                        tb,
                        global@,
                        tile_side as int,
                        global_side as int,
                        cols as int,
                        x,
                        y,
                        ch,
                    ),
            decreases frame_width - px,
        {
            let px4 = composite_pixel(tiles, global, tile_side, global_side, cols, px, py);
            let ghost before = composite@;
            composite.push(px4.0);
            composite.push(px4.1);
            composite.push(px4.2);
            composite.push(px4.3);
            proof {
                assert forall|x: int, y: int, ch: int|
                    0 <= x < frame_width && 0 <= y <= py && (y < py || x < px + 1) && 0 <= ch < 4 implies composite@[pixel_index(
                    frame_width as int,
                    x,
                    y,
                    ch,
                )] == #[trigger] composite_at(tb, global@, tile_side as int, global_side as int, cols as int, x, y, ch) by {
                    if y < py || x < px {
                        lemma_pixel_before(frame_width as int, x, y, px as int, py as int, ch);
                    } else {
                        assert(pixel_index(frame_width as int, x, y, ch) == before.len() + ch);
                    }
                }
            }
            px += 1;
        }
        proof {
            assert((py + 1) * frame_width == py * frame_width + frame_width) by (nonlinear_arith);
        }
        py += 1;
    }
    assert(composite@.len() == frame_width * frame_height * 4) by (nonlinear_arith)
        requires composite@.len() == (frame_height * frame_width) * 4;
    (composite, frame_width, frame_height)
}

/// The four bytes of composite pixel `(px, py)`.
fn composite_pixel(tiles: &[Vec<u8>], global: &[u8], ts: u32, gs: u32, cols: u32, px: u32, py: u32) -> (b: (
    u8,
    u8,
    u8,
    u8,
))
    requires
        composite_fits(tiles@.len() as int, ts, gs),
        tiles@.len() > 0,
        (cols as int, composite_grid(tiles@.len() as int).1) == composite_grid(tiles@.len() as int),
        px < cols * ts,
        py < composite_grid(tiles@.len() as int).1 * ts,
    ensures
        b.0 == composite_at(frame_bytes(tiles@), global@, ts as int, gs as int, cols as int, px as int, py as int, 0),
        b.1 == composite_at(frame_bytes(tiles@), global@, ts as int, gs as int, cols as int, px as int, py as int, 1),
        b.2 == composite_at(frame_bytes(tiles@), global@, ts as int, gs as int, cols as int, px as int, py as int, 2),
        b.3 == composite_at(frame_bytes(tiles@), global@, ts as int, gs as int, cols as int, px as int, py as int, 3),
{
    let ghost rows = composite_grid(tiles@.len() as int).1;
    let ghost tb = frame_bytes(tiles@);
    assert(ts > 0) by (nonlinear_arith)
        requires px < cols * ts, cols >= 1;
    let cell_col = px / ts;
    let cell_row = py / ts;
    let x = px % ts;
    let y = py % ts;
    assert(cell_col < cols) by (nonlinear_arith)
        requires px < cols * ts, ts > 0, cell_col == px / ts;
    assert(cell_row < rows) by (nonlinear_arith)
        requires py < rows * ts, ts > 0, cell_row == py / ts;
    assert(cell_row * cols + cell_col < rows * cols) by (nonlinear_arith)
        requires cell_col < cols, cell_row < rows, 0 <= cell_row, 0 <= cell_col;
    assert((cell_row as u64) * (cols as u64) <= 0xFFFF_FFFE_0000_0001u64) by (nonlinear_arith)
        requires cell_row <= 0xFFFF_FFFFu64, cols <= 0xFFFF_FFFFu64, 0 <= cell_row, 0 <= cols;
    let k: u64 = (cell_row as u64) * (cols as u64) + (cell_col as u64);
    let n = tiles.len();
    let g: u64 = (cols - 1) as u64;
    let ti: u64 = if k < g { k } else if k > g { k - 1 } else { 0 };
    if k == g {
        assert((x as u64) * (gs as u64) <= 0xFFFF_FFFE_0000_0001u64 && (y as u64) * (gs as u64)
            <= 0xFFFF_FFFE_0000_0001u64) by (nonlinear_arith)
            requires x <= 0xFFFF_FFFFu64, y <= 0xFFFF_FFFFu64, gs <= 0xFFFF_FFFFu64, 0 <= x, 0 <= y, 0 <= gs;
        let sx64 = (x as u64) * (gs as u64) / (ts as u64);
        let sy64 = (y as u64) * (gs as u64) / (ts as u64);
        if sx64 < gs as u64 && sy64 < gs as u64 {
            let sx = sx64 as u32;
            let sy = sy64 as u32;
            assert(sy * gs + sx < gs * gs) by (nonlinear_arith)
                requires sx < gs, sy < gs, 0 <= sx, 0 <= sy;
            let si = ((sy * gs + sx) * 4) as usize;
            if si + 3 < global.len() {
                (global[si], global[si + 1], global[si + 2], global[si + 3])
            } else {
                (255, 255, 255, 255)
            }
        } else {
            (255, 255, 255, 255)
        }
    } else if ti < n as u64 {
        let t = &tiles[ti as usize];
        assert(t@ == tb[ti as int]);
        assert(y * ts + x < ts * ts) by (nonlinear_arith)
            requires x < ts, y < ts, 0 <= x, 0 <= y;
        assert(ts * ts * 4 <= u32::MAX) by (nonlinear_arith)
            requires cols * ts * (rows * ts) * 4 <= u32::MAX, cols >= 1, rows >= 1, ts >= 0;
        let si = ((y * ts + x) * 4) as usize;
        if si + 3 < t.len() {
            (t[si], t[si + 1], t[si + 2], t[si + 3])
        } else {
            (255, 255, 255, 255)
        }
    } else {
        (255, 255, 255, 255)
    }
}

} // verus!
