//! Frame processors of a capture pipeline: Gundam tiling into a composite
//! frame, and preset scaling; with the stream configuration types.
use crate::cpu::{
    canvas_len, is_strided, new_resizer, rows_readable, scale_bgra_cpu, scale_fits, scale_outcome, scaled_output, ScaleError,
    Staging,
};
use crate::gundam::{
    ceil_div, clamp_1_3, global_plan, spec_choose_grid, gundam_inputs_ok, gundam_pack_cpu, tile_buffers_ok, tile_output, tile_rects,
    GundamCfg, GundamOutputs,
};
use crate::presets::{
    build_plan, lemma_fit_preserve_bounded, preset_long_side, spec_plan, AspectMode, ScalePlan, ScaleTarget, TokenPreset,
};
use crate::rtsp::{arrange_gundam_composite, composite_fits, composite_grid, frame_bytes, is_composite, BgraFrame};
use crate::text::{decimal, owned, push_decimal};
use fast_image_resize::Resizer;
use std::sync::Arc;
use vstd::prelude::*;

verus! {

/// Frame dimensions in pixels.
#[derive(Debug, Clone, Copy)]
pub struct Size {
    pub w: u32,
    pub h: u32,
}

/// Output format and parameters of a stream.
#[derive(Debug, Clone)]
pub struct StreamConfig {
    pub width: u32,
    pub height: u32,
    pub fps: u32,
    pub format: StreamFormat,
}

/// Where a stream goes.
#[derive(Debug, Clone)]
pub enum StreamFormat {
    /// RTSP network streaming.
    Rtsp { port: u16, mount: String },
    /// File output (MP4).
    File { path: String },
}

/// `x` clamped to `lo..=hi`.
pub open spec fn clamp(x: int, lo: int, hi: int) -> int {
    if x < lo {
        lo
    } else if x > hi {
        hi
    } else {
        x
    }
}

/// The number of tile buffers a Gundam processor prepares for `input`:
/// one per started 1024 pixels in each direction (1 to 3 per direction),
/// clamped to the configured range.
pub open spec fn planned_tiles(input: Size, cfg: GundamCfg) -> int {
    let cols = clamp_1_3(ceil_div(input.w as int, 1024));
    let rows = clamp_1_3(ceil_div(input.h as int, 1024));
    clamp(cols * rows, cfg.min_tiles as int, cfg.max_tiles as int)
}

/// A Gundam processor prepares one buffer per tile of the automatic grid
/// of its input (columns from the width, rows from the height), kept
/// within `min_tiles..=max_tiles`; an input of at most 1024 by 1024
/// pixels counts as one tile before that bound.
pub proof fn lemma_planned_tiles_follow_the_grid(input: Size, cfg: GundamCfg)
    ensures
        ({
            let (cols, rows) = spec_choose_grid(input.w, input.h);
            let n: int = if input.w > 1024 || input.h > 1024 { cols * rows } else { 1 };
            planned_tiles(input, cfg) == if n < cfg.min_tiles {
                cfg.min_tiles as int
            } else if n > cfg.max_tiles {
                cfg.max_tiles as int
            } else {
                n
            }
        }),
{
    let c = clamp_1_3(ceil_div(input.w as int, 1024));
    let r = clamp_1_3(ceil_div(input.h as int, 1024));
    if input.w > 1024 || input.h > 1024 {
        assert(c * r >= 2) by (nonlinear_arith)
            requires 1 <= c <= 3, 1 <= r <= 3, c >= 2 || r >= 2;
    } else {
        assert(c == 1 && r == 1);
    }
}

/// The size of the composite frame for `n` tiles plus the global view.
pub open spec fn composite_size(n: int, tile_side: u32) -> Size {
    let (cols, rows) = composite_grid(n);
    Size { w: (cols * tile_side) as u32, h: (rows * tile_side) as u32 }
}

/// `n` zero bytes.
fn zeros(n: usize) -> (v: Vec<u8>)
    ensures
        v@ == Seq::new(n as nat, |i: int| 0u8),
{
    let mut v: Vec<u8> = Vec::with_capacity(n);
    let mut i: usize = 0;
    while i < n
        invariant
            i <= n,
            v@ == Seq::new(i as nat, |k: int| 0u8),
        decreases n - i,
    {
        v.push(0);
        i += 1;
    }
    v
}

/// Mutable views of all the buffers of `bufs`, appended to `acc` in order.
fn collect_tile_slices<'a>(bufs: &'a mut [Vec<u8>], acc: &mut Vec<&'a mut [u8]>)
    ensures
        final(acc)@.len() == old(acc)@.len() + old(bufs)@.len(),
        forall|i: int| 0 <= i < old(acc)@.len() ==> final(acc)@[i] == old(acc)@[i],
        forall|i: int|
            0 <= i < old(bufs)@.len() ==> (*#[trigger] final(acc)@[old(acc)@.len() + i])@ == old(bufs)@[i]@,
        forall|i: int|
            0 <= i < old(bufs)@.len() ==> (*final(#[trigger] final(acc)@[old(acc)@.len() + i]))@
                == final(bufs)@[i]@,
        final(bufs)@.len() == old(bufs)@.len(),
    decreases old(bufs)@.len(),
{
    if bufs.len() == 0 {
        return;
    }
    let ghost b0 = bufs@;
    let ghost whole = bufs;
    let ghost n0 = acc@.len();
    let (head, tail) = bufs.split_at_mut(1);
    let ghost head_g = head;
    let first: &'a mut Vec<u8> = &mut head[0];
    let ghost first_g = first;
    let slice = first.as_mut_slice();
    let ghost slice_g = slice;
    acc.push(slice);
    assert((*acc@[n0 as int])@ == (*slice_g)@);
    assert((*final(acc@[n0 as int]))@ == (*final(slice_g))@);
    let ghost t0 = tail@;
    let ghost tail_g = tail;
    collect_tile_slices(tail, acc);
    proof {
        assert((*final(head_g))@ =~= seq![*final(first_g)]);
        assert((*final(whole))@ == (*final(head_g))@ + (*final(tail_g))@);
        assert forall|i: int| 0 <= i < b0.len() implies (*#[trigger] acc@[n0 + i])@ == b0[i]@ by {
            if i > 0 {
                assert(t0[i - 1] == b0[i]);
                assert(acc@[(n0 + 1) + (i - 1)] == acc@[n0 + i]);
            }
        }
        assert forall|i: int| 0 <= i < b0.len() implies (*final(#[trigger] acc@[n0 + i]))@ == (
        *final(whole))@[i]@ by {
            if i > 0 {
                assert(acc@[(n0 + 1) + (i - 1)] == acc@[n0 + i]);
                assert((*final(whole))@[i] == (*final(tail_g))@[i - 1]);
            } else {
                assert((*final(whole))@[0] == *final(first_g));
            }
        }
    }
}

/// Cuts frames into Gundam tiles plus a global view and shows them side by
/// side in one composite frame.
pub struct GundamProcessor {
    pub cfg: GundamCfg,
    pub tile_buffers: Vec<Vec<u8>>,
    pub global_buffer: Vec<u8>,
    pub output_size: Size,
}

impl GundamProcessor {
    /// Prepares zeroed buffers for the tiles and the global view of frames
    /// of `input_size`, and returns the size of the composite frames.
    pub fn initialize(&mut self, input_size: Size) -> (out: Size)
        requires
            old(self).cfg.min_tiles <= old(self).cfg.max_tiles,
            planned_tiles(input_size, old(self).cfg) < u32::MAX,
            old(self).cfg.tile_side * old(self).cfg.tile_side * 4 <= u32::MAX,
            old(self).cfg.global_side * old(self).cfg.global_side * 4 <= u32::MAX,
            composite_grid(planned_tiles(input_size, old(self).cfg)).0 * old(self).cfg.tile_side <= u32::MAX,
            composite_grid(planned_tiles(input_size, old(self).cfg)).1 * old(self).cfg.tile_side <= u32::MAX,
        ensures
            final(self).cfg == old(self).cfg,
            final(self).tile_buffers@.len() == planned_tiles(input_size, old(self).cfg),
            forall|i: int|
                0 <= i < final(self).tile_buffers@.len() ==> #[trigger] final(self).tile_buffers@[i]@ == Seq::new(
                    (old(self).cfg.tile_side * old(self).cfg.tile_side * 4) as nat,
                    |k: int| 0u8,
                ),
            final(self).global_buffer@ == Seq::new(
                (old(self).cfg.global_side * old(self).cfg.global_side * 4) as nat,
                |k: int| 0u8,
            ),
            out == composite_size(planned_tiles(input_size, old(self).cfg), old(self).cfg.tile_side),
            final(self).output_size == out,
    {
        let cols0: u32 = ((input_size.w as u64 + 1023) / 1024) as u32;
        let rows0: u32 = ((input_size.h as u64 + 1023) / 1024) as u32;
        let cols: u32 = if cols0 < 1 { 1 } else if cols0 > 3 { 3 } else { cols0 };
        let rows: u32 = if rows0 < 1 { 1 } else if rows0 > 3 { 3 } else { rows0 };
        assert(cols * rows <= 9) by (nonlinear_arith)
            requires 1 <= cols <= 3, 1 <= rows <= 3;
        let grid = cols * rows;
        let num_tiles: u32 = if grid < self.cfg.min_tiles {
            self.cfg.min_tiles
        } else if grid > self.cfg.max_tiles {
            self.cfg.max_tiles
        } else {
            grid
        };
        let tile_buffer_size = (self.cfg.tile_side * self.cfg.tile_side * 4) as usize;
        let mut tiles: Vec<Vec<u8>> = Vec::new();
        let mut i: u32 = 0;
        while i < num_tiles
            invariant
                i <= num_tiles,
                tiles@.len() == i,
                forall|k: int| 0 <= k < i ==> #[trigger] tiles@[k]@ == Seq::new(tile_buffer_size as nat, |j: int| 0u8),
            decreases num_tiles - i,
        {
            tiles.push(zeros(tile_buffer_size));
            i += 1;
        }
        self.tile_buffers = tiles;
        let global_buffer_size = (self.cfg.global_side * self.cfg.global_side * 4) as usize;
        self.global_buffer = zeros(global_buffer_size);
        let total: u32 = num_tiles + 1;
        let cols_out = crate::rtsp::ceil_sqrt(total);
        let rows_q: u64 = (total as u64 + cols_out as u64 - 1) / (cols_out as u64);
        assert(rows_q <= total) by (nonlinear_arith)
            requires rows_q == (total + cols_out - 1) / (cols_out as int), cols_out >= 1, total >= 1, cols_out * cols_out >= total;
        let rows_out: u32 = if rows_q < 1 { 1 } else { rows_q as u32 };
        let out = Size { w: cols_out * self.cfg.tile_side, h: rows_out * self.cfg.tile_side };
        self.output_size = out;
        out
    }

    /// Tiles `frame` into the tile buffers and the global buffer, then
    /// returns the composite frame of all the buffers, with the frame's
    /// timestamp.  A global buffer that is too small, or a tightly packed
    /// frame that is too short, is an error, reported after the tiles are
    /// written.
    pub fn process_frame(&mut self, frame: BgraFrame) -> (r: Result<BgraFrame, ScaleError>)
        requires
            gundam_inputs_ok(frame.data@.len() as int, frame.width, frame.height, frame.stride, old(self).cfg),
            tile_buffers_ok_owned(old(self).tile_buffers@, tile_rects(frame.width, frame.height, old(self).cfg).len() as int, old(self).cfg),
            old(self).global_buffer@.len() >= canvas_len(global_plan(frame.width, frame.height, old(self).cfg))
                && frame.stride != frame.width * 4 ==> rows_readable(
                frame.data@.len() as int,
                frame.stride as int,
                frame.width * 4,
                frame.height as int,
            ),
            frame.stride * frame.height <= usize::MAX,
            composite_fits(old(self).tile_buffers@.len() as int, old(self).cfg.tile_side, old(self).cfg.global_side),
        ensures
            final(self).cfg == old(self).cfg,
            final(self).output_size == old(self).output_size,
            final(self).tile_buffers@.len() == old(self).tile_buffers@.len(),
            ({
                let rects = tile_rects(frame.width, frame.height, old(self).cfg);
                &&& forall|i: int|
                    0 <= i < rects.len() ==> #[trigger] final(self).tile_buffers@[i]@ == tile_output(
                        frame.data@,
                        frame.stride as int,
                        rects[i],
                        old(self).cfg,
                        old(self).tile_buffers@[i]@,
                    )
                &&& forall|i: int|
                    rects.len() <= i < old(self).tile_buffers@.len() ==> #[trigger] final(self).tile_buffers@[i]@
                        == old(self).tile_buffers@[i]@
            }),
            ({
                let input = crate::presets::Size { w: frame.width, h: frame.height };
                let plan = global_plan(frame.width, frame.height, old(self).cfg);
                let before = old(self).global_buffer@;
                let after = final(self).global_buffer@;
                if before.len() < canvas_len(plan) {
                    &&& r is Err
                    &&& r->Err_0 is BufferTooSmall
                    &&& after == before
                } else if !is_strided(input, Some(frame.stride)) && frame.data@.len() < frame.width * frame.height
                    * 4 {
                    &&& r is Err
                    &&& r->Err_0 is ImageBuf
                    &&& after == before
                } else {
                    &&& after == scaled_output(frame.data@, input, Some(frame.stride), plan, before)
                    &&& r matches Ok(f) && f.pts_ns == frame.pts_ns && f.stride == f.width * 4 && if final(self).tile_buffers@.len() == 0 {
                        f.data@ == after && f.width == old(self).cfg.global_side && f.height
                            == old(self).cfg.global_side
                    } else {
                        is_composite(
                            f.data@,
                            f.width,
                            f.height,
                            frame_bytes(final(self).tile_buffers@),
                            after,
                            old(self).cfg.tile_side,
                            old(self).cfg.global_side,
                        )
                    }
                }
            }),
    {
        let mut resizer = new_resizer();
        let mut staging = Staging::with_capacity(frame.stride * frame.height as usize);
        let cfg = self.cfg;
        let mut refs: Vec<&mut [u8]> = Vec::new();
        let ghost tb0 = self.tile_buffers@;
        let ghost gb0 = self.global_buffer@;
        let tiles_slice = self.tile_buffers.as_mut_slice();
        let ghost slice_g = tiles_slice;
        collect_tile_slices(tiles_slice, &mut refs);
        let global = self.global_buffer.as_mut_slice();
        let ghost global_g = global;
        let ghost refs_g = refs;
        proof {
            assert forall|i: int| 0 <= i < tile_rects(frame.width, frame.height, cfg).len() implies (*#[trigger] refs@[i])@.len()
                >= cfg.tile_side * cfg.tile_side * 4 by {
                assert(refs@[0 + i] == refs@[i]);
            }
        }
        let outputs = GundamOutputs { tiles: refs, global };
        let ghost outputs_g = outputs;
        assert(outputs_g.tiles == refs_g);
        let res = gundam_pack_cpu(
            &mut resizer,
            frame.data.as_slice(),
            frame.width,
            frame.height,
            frame.stride,
            cfg,
            &mut staging,
            outputs,
        );
        proof {
            let rects = tile_rects(frame.width, frame.height, cfg);
            assert(self.tile_buffers@ == (*final(slice_g))@);
            assert(self.global_buffer@ == (*final(global_g))@);
            assert forall|i: int| 0 <= i < rects.len() implies #[trigger] self.tile_buffers@[i]@ == tile_output(
                frame.data@,
                frame.stride as int,
                rects[i],
                cfg,
                tb0[i]@,
            ) by {
                assert(refs_g@[0 + i] == refs_g@[i]);
                assert((*final(refs_g@[i]))@ == (*final(slice_g))@[i]@);
                assert((*refs_g@[i])@ == tb0[i]@);
            }
            assert(refs_g@.len() == tb0.len());
            assert forall|i: int| rects.len() <= i < tb0.len() implies #[trigger] self.tile_buffers@[i]@ == tb0[i]@ by {
                assert(refs_g@[0 + i] == refs_g@[i]);
                assert(outputs_g.tiles@[i] == refs_g@[i]);
                assert((*final(refs_g@[i]))@ == (*refs_g@[i])@);
                assert((*final(refs_g@[i]))@ == (*final(slice_g))@[i]@);
                assert((*refs_g@[i])@ == tb0[i]@);
            }
            assert(self.tile_buffers@.len() == tb0.len());
        }
        match res {
            Err(e) => Err(e),
            Ok(()) => {
                let (composite, width, height) = arrange_gundam_composite(
                    self.tile_buffers.as_slice(),
                    self.global_buffer.as_slice(),
                    cfg.tile_side,
                    cfg.global_side,
                );
                proof {
                    if self.tile_buffers@.len() > 0 {
                        assert(composite@.len() == composite.len());
                        if height >= 1 {
                            assert(width * 4 <= width * height * 4) by (nonlinear_arith)
                                requires height >= 1;
                        } else {
                            let (c, rw) = composite_grid(self.tile_buffers@.len() as int);
                            assert(cfg.tile_side == 0) by (nonlinear_arith)
                                requires rw * cfg.tile_side == 0, rw >= 1;
                            assert(width == 0) by (nonlinear_arith)
                                requires width == c * cfg.tile_side, cfg.tile_side == 0;
                        }
                    } else {
                        assert(cfg.global_side * 4 <= usize::MAX) by (nonlinear_arith)
                            requires cfg.global_side * cfg.global_side * 4 <= usize::MAX, cfg.global_side >= 1;
                    }
                }
                Ok(BgraFrame { data: Arc::new(composite), width, height, stride: width as usize * 4, pts_ns: frame.pts_ns })
            },
        }
    }
}

/// Owned tile buffers are long enough for the first `n` tiles.
pub open spec fn tile_buffers_ok_owned(tiles: Seq<Vec<u8>>, n: int, cfg: GundamCfg) -> bool {
    &&& tiles.len() >= n
    &&& forall|i: int| 0 <= i < n ==> (#[trigger] tiles[i])@.len() >= cfg.tile_side * cfg.tile_side * 4
}

/// Scales frames by a token-saving preset, keeping their aspect ratio.
pub struct ScalingProcessor {
    pub preset: TokenPreset,
    pub resizer: Resizer,
    pub staging: Staging,
    pub output_buffer: Vec<u8>,
    pub output_size: Size,
}

/// The plan a scaling processor uses for frames of `w` by `h` pixels.
pub open spec fn preset_plan(preset: TokenPreset, w: u32, h: u32) -> ScalePlan {
    spec_plan(
        crate::presets::Size { w, h },
        ScaleTarget::MaxLongSide(preset_long_side(preset)),
        AspectMode::Preserve,
    )
}

/// `v` resized to `n` bytes: cut, or grown with zeros.
pub open spec fn resized_zero(v: Seq<u8>, n: int) -> Seq<u8> {
    if n <= v.len() {
        v.subrange(0, n)
    } else {
        v + Seq::new((n - v.len()) as nat, |i: int| 0u8)
    }
}

impl ScalingProcessor {
    /// Sizes the output buffer for frames of `input_size` and grows the
    /// staging buffer to hold such a frame; returns the output size.
    pub fn initialize(&mut self, input_size: Size) -> (out: Size)
        requires
            input_size.w * input_size.h * 4 <= u32::MAX,
        ensures
            ({
                let plan = preset_plan(old(self).preset, input_size.w, input_size.h);
                &&& out == Size { w: plan.out.w, h: plan.out.h }
                &&& final(self).output_size == out
                &&& final(self).output_buffer@ == resized_zero(old(self).output_buffer@, out.w * out.h * 4)
                &&& final(self).staging.bytes() == resized_zero(
                    old(self).staging.bytes(),
                    if old(self).staging.bytes().len() >= input_size.w * input_size.h * 4 {
                        old(self).staging.bytes().len() as int
                    } else {
                        input_size.w * input_size.h * 4
                    },
                )
            }),
            final(self).preset == old(self).preset,
    {
        let input = crate::presets::Size { w: input_size.w, h: input_size.h };
        let target = self.preset.to_target();
        let plan = build_plan(input, target, AspectMode::Preserve);
        proof {
            lemma_fit_preserve_bounded(input, preset_long_side(self.preset));
            assert(plan.out.w * plan.out.h * 4 <= 640 * 640 * 4) by (nonlinear_arith)
                requires 1 <= plan.out.w <= 640, 1 <= plan.out.h <= 640;
        }
        self.output_size = Size { w: plan.out.w, h: plan.out.h };
        let buffer_size = (self.output_size.w * self.output_size.h * 4) as usize;
        let ghost before = self.output_buffer@;
        self.output_buffer.resize(buffer_size, 0);
        proof {
            if buffer_size > before.len() {
                assert forall|i: int| before.len() <= i < buffer_size implies self.output_buffer@[i] == 0u8 by {
                    assert(cloned::<u8>(0u8, self.output_buffer@[i]));
                }
                assert(self.output_buffer@ =~= resized_zero(before, buffer_size as int));
            }
        }
        let input_buffer_size = (input_size.w * input_size.h * 4) as usize;
        self.staging.ensure_len(input_buffer_size);
        self.output_size
    }

    /// Scales `frame` by the preset into the output buffer and returns a
    /// frame of the scaled picture with the input's timestamp.
    pub fn process_frame(&mut self, frame: BgraFrame) -> (r: Result<BgraFrame, ScaleError>)
        requires
            frame.width * 4 <= usize::MAX,
            frame.width * frame.height * 4 <= usize::MAX,
            old(self).output_buffer@.len() >= canvas_len(preset_plan(old(self).preset, frame.width, frame.height))
                && frame.stride != frame.width * 4 ==> rows_readable(
                frame.data@.len() as int,
                frame.stride as int,
                frame.width * 4,
                frame.height as int,
            ),
        ensures
            ({
                let plan = preset_plan(old(self).preset, frame.width, frame.height);
                let src = crate::presets::Size { w: frame.width, h: frame.height };
                let res: Result<(), ScaleError> = match r {
                    Ok(_) => Ok(()),
                    Err(e) => Err(e),
                };
                &&& scale_outcome(
                    frame.data@,
                    src,
                    Some(frame.stride),
                    plan,
                    true,
                    old(self).output_buffer@,
                    res,
                    final(self).output_buffer@,
                )
                &&& (r matches Ok(f) ==> {
                    &&& f.data@ == final(self).output_buffer@
                    &&& f.width == plan.out.w
                    &&& f.height == plan.out.h
                    &&& f.stride == plan.out.w * 4
                    &&& f.pts_ns == frame.pts_ns
                })
            }),
            final(self).preset == old(self).preset,
            final(self).output_size == old(self).output_size,
    {
        let src = crate::presets::Size { w: frame.width, h: frame.height };
        let target = self.preset.to_target();
        let plan = build_plan(src, target, AspectMode::Preserve);
        proof {
            lemma_fit_preserve_bounded(src, preset_long_side(self.preset));
            assert(plan.out.w * plan.out.h * 4 <= 640 * 640 * 4) by (nonlinear_arith)
                requires 1 <= plan.out.w <= 640, 1 <= plan.out.h <= 640;
        }
        let res = scale_bgra_cpu(
            &mut self.resizer,
            frame.data.as_slice(),
            src,
            Some(frame.stride),
            &plan,
            self.output_buffer.as_mut_slice(),
            Some(&mut self.staging),
        );
        match res {
            Err(e) => Err(e),
            Ok(()) => {
                let data = self.output_buffer.clone();
                proof {
                    assert forall|i: int| 0 <= i < data@.len() implies data@[i] == self.output_buffer@[i] by {
                        assert(cloned::<u8>(self.output_buffer@[i], data@[i]));
                    }
                    assert(data@ =~= self.output_buffer@);
                }
                Ok(BgraFrame {
                    data: Arc::new(data),
                    width: plan.out.w,
                    height: plan.out.h,
                    stride: (plan.out.w * 4) as usize,
                    pts_ns: frame.pts_ns,
                })
            },
        }
    }
}

/// The GStreamer launch description that encodes a stream's BGRA frames
/// to an H.264 MP4 file at `path`.
pub open spec fn spec_file_launch(config: StreamConfig, path: Seq<char>) -> Seq<char> {
    "appsrc name=src is-live=true format=time do-timestamp=true caps=video/x-raw,format=BGRA,width="@ + decimal(
        config.width as nat,
    ) + ",height="@ + decimal(config.height as nat) + ",framerate="@ + decimal(config.fps as nat)
        + "/1 ! videoconvert ! videoscale ! video/x-raw,format=I420 ! x264enc tune=zerolatency speed-preset=veryfast bitrate=4000 ! h264parse ! mp4mux ! filesink location="@
        + path
}

/// The launch description of a file stream.
pub fn file_launch_description(config: &StreamConfig, path: &str) -> (s: String)
    ensures
        s@ == spec_file_launch(*config, path@),
{
    let mut s = owned("appsrc name=src is-live=true format=time do-timestamp=true caps=video/x-raw,format=BGRA,width=");
    push_decimal(&mut s, config.width as u64);
    s.append(",height=");
    push_decimal(&mut s, config.height as u64);
    s.append(",framerate=");
    push_decimal(&mut s, config.fps as u64);
    s.append(
        "/1 ! videoconvert ! videoscale ! video/x-raw,format=I420 ! x264enc tune=zerolatency speed-preset=veryfast bitrate=4000 ! h264parse ! mp4mux ! filesink location=",
    );
    s.append(path);
    s
}

/// The timestamp a file stream gives its `frame_count`-th frame: the
/// frame's own, or `frame_count` frame durations at `fps`.
pub open spec fn spec_file_frame_pts(pts_ns: Option<u64>, frame_count: u64, fps: u32) -> u64 {
    match pts_ns {
        Some(p) => p,
        None => (frame_count * (1_000_000_000u64 / fps as u64)) as u64,
    }
}

/// The timestamp of a frame written to a file stream.
pub fn file_frame_pts(pts_ns: Option<u64>, frame_count: u64, fps: u32) -> (t: u64)
    requires
        fps > 0,
        frame_count * (1_000_000_000u64 / fps as u64) <= u64::MAX,
    ensures
        t == spec_file_frame_pts(pts_ns, frame_count, fps),
{
    match pts_ns {
        Some(p) => p,
        None => frame_count * (1_000_000_000u64 / fps as u64),
    }
}

/// Why a capture session cannot be built: no output stream, then no
/// capture source.
pub open spec fn spec_session_problem(stream_count: usize, has_capture_source: bool) -> Option<Seq<char>> {
    if stream_count == 0 {
        Some("At least one stream must be configured"@)
    } else if !has_capture_source {
        Some("No capture source specified"@)
    } else {
        None
    }
}

/// Checks the parts of a capture session before it is built.
pub fn check_session_parts(stream_count: usize, has_capture_source: bool) -> (r: Result<(), String>)
    ensures
        match spec_session_problem(stream_count, has_capture_source) {
            None => r is Ok,
            Some(msg) => r matches Err(e) && e@ == msg,
        },
{
    if stream_count == 0 {
        return Err(owned("At least one stream must be configured"));
    }
    if !has_capture_source {
        return Err(owned("No capture source specified"));
    }
    Ok(())
}

} // verus!
