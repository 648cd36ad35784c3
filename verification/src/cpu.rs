//! BGRA8 scaling on the CPU through `fast_image_resize`.
//!
//! Strided sources are first compacted row by row into a staging buffer;
//! padded plans fill the whole canvas with the background colour and then
//! resize into the placement rectangle.
use crate::presets::{AspectMode, ScalePlan, Size};
use crate::text::owned;
use fast_image_resize::images::{TypedCroppedImageMut, TypedImage, TypedImageRef};
use fast_image_resize::pixels::U8x4;
use fast_image_resize::{ResizeOptions, Resizer};
use vstd::prelude::*;

verus! {

#[verifier::external_type_specification]
#[verifier::external_body]
pub struct ExResizer(fast_image_resize::Resizer);

#[verifier::external_type_specification]
#[verifier::external_body]
pub struct ExResizeError(fast_image_resize::ResizeError);

#[verifier::external_type_specification]
#[verifier::external_body]
pub struct ExImageBufferError(fast_image_resize::ImageBufferError);

#[verifier::external_type_specification]
#[verifier::external_body]
pub struct ExCropBoxError(fast_image_resize::CropBoxError);

/// Failures of a scaling call.
#[derive(Debug)]
pub enum ScaleError {
    /// The output buffer is smaller than the plan's canvas.
    BufferTooSmall,
    /// The source is strided and no staging buffer was given.
    StrideMismatchAndNoStaging,
    /// `fast_image_resize` refused the resize.
    Fir(fast_image_resize::ResizeError),
    /// An image view could not be made over a buffer.
    ImageBuf(fast_image_resize::ImageBufferError),
    /// The placement rectangle does not fit the canvas.
    Crop(fast_image_resize::CropBoxError),
}

/// The `Display` text of a `fast_image_resize` error.  Nothing is stated of
/// it here: each variant of the outside error has its own fixed message.
#[verifier::external_body]
fn resize_error_text(e: &fast_image_resize::ResizeError) -> String {
    e.to_string()
}

/// The `Display` text of a `fast_image_resize` image buffer error.
/// Nothing is stated of it here.
#[verifier::external_body]
fn image_buffer_error_text(e: &fast_image_resize::ImageBufferError) -> String {
    e.to_string()
}

/// The `Display` text of a `fast_image_resize` crop box error.  Nothing is
/// stated of it here.
#[verifier::external_body]
fn crop_box_error_text(e: &fast_image_resize::CropBoxError) -> String {
    e.to_string()
}

impl ScaleError {
    /// The text of the error: a fixed message for the library's own
    /// failures, and for those of `fast_image_resize` a prefix naming the
    /// kind followed by that crate's message.
    pub fn to_string(&self) -> (s: String)
        ensures
            self is BufferTooSmall ==> s@ == "Output buffer too small"@,
            self is StrideMismatchAndNoStaging ==> s@ == "Stride mismatch but no staging buffer provided"@,
            self is Fir ==> exists|t: Seq<char>| s@ == #[trigger] ("Fast image resize error: "@ + t),
            self is ImageBuf ==> exists|t: Seq<char>| s@ == #[trigger] ("Image buffer error: "@ + t),
            self is Crop ==> exists|t: Seq<char>| s@ == #[trigger] ("Crop error: "@ + t),
    {
        match self {
            ScaleError::BufferTooSmall => owned("Output buffer too small"),
            ScaleError::StrideMismatchAndNoStaging => owned("Stride mismatch but no staging buffer provided"),
            ScaleError::Fir(e) => {
                let t = resize_error_text(e);
                let mut s = owned("Fast image resize error: ");
                s.append(t.as_str());
                s
            },
            ScaleError::ImageBuf(e) => {
                let t = image_buffer_error_text(e);
                let mut s = owned("Image buffer error: ");
                s.append(t.as_str());
                s
            },
            ScaleError::Crop(e) => {
                let t = crop_box_error_text(e);
                let mut s = owned("Crop error: ");
                s.append(t.as_str());
                s
            },
        }
    }
}

/// The BGRA8 picture that `fast_image_resize`'s default convolution
/// (Lanczos3, alpha not premultiplied) makes of the `sw` by `sh` picture
/// `src` at `dw` by `dh` pixels, rows top to bottom, `dw * 4` bytes each.
pub uninterp spec fn resized_bgra(src: Seq<u8>, sw: u32, sh: u32, dw: u32, dh: u32) -> Seq<u8>;

/// `base` with the `rw` by `rh` picture `pix` written at `(x, y)` of a
/// canvas `dw` pixels wide; the other bytes are those of `base`.
pub open spec fn placed(base: Seq<u8>, dw: int, roi: (u32, u32, u32, u32), pix: Seq<u8>) -> Seq<u8> {
    let (x, y, rw, rh) = roi;
    Seq::new(
        base.len(),
        |i: int|
            {
                let p = i / 4;
                let row = p / dw;
                let col = p % dw;
                if y <= row < y + rh && x <= col < x + rw {
                    pix[((row - y) * rw + (col - x)) * 4 + i % 4]
                } else {
                    base[i]
                }
            },
    )
}

/// Whether a resize has nothing to do: a side of the source or of the
/// placement is zero.
pub open spec fn resize_is_noop(sw: u32, sh: u32, roi: (u32, u32, u32, u32)) -> bool {
    sw == 0 || sh == 0 || roi.2 == 0 || roi.3 == 0
}

/// The resized picture of the `sw` by `sh` picture at the start of `src`,
/// at the size of the placement `roi`.
pub open spec fn resized_into(src: Seq<u8>, sw: u32, sh: u32, roi: (u32, u32, u32, u32)) -> Seq<u8> {
    resized_bgra(src.subrange(0, sw * sh * 4), sw, sh, roi.2, roi.3)
}

/// What a resize leaves in its destination: `pic` placed at `roi`, or
/// nothing changed when the resize has nothing to do.
pub open spec fn resize_result(base: Seq<u8>, dw: u32, roi: (u32, u32, u32, u32), noop: bool, pic: Seq<u8>) -> Seq<u8> {
    if noop {
        base
    } else {
        placed(base, dw as int, roi, pic)
    }
}

/// `Resizer::resize_typed` from the `sw` by `sh` BGRA8 picture at the start
/// of `src` onto the whole `dw` by `dh` canvas at the start of `dst`, with
/// the default algorithm and `use_alpha(false)`.  Making the image views
/// fails with `ImageBuf` exactly when a buffer is shorter than its picture;
/// the resize itself then reads only the picture and writes only the canvas.
#[verifier::external_body]
fn resize_onto_canvas(resizer: &mut Resizer, src: &[u8], sw: u32, sh: u32, dst: &mut [u8], dw: u32, dh: u32) -> (r: Result<(), ScaleError>)
    requires
        sw * sh * 4 <= usize::MAX,
        dw * dh * 4 <= usize::MAX,
    ensures
        src@.len() < sw * sh * 4 || old(dst)@.len() < dw * dh * 4 ==> {
            &&& r is Err
            &&& r->Err_0 is ImageBuf
            &&& final(dst)@ == old(dst)@
        },
        !(src@.len() < sw * sh * 4 || old(dst)@.len() < dw * dh * 4) ==> {
            &&& r is Ok
            &&& final(dst)@ == resize_result(
                old(dst)@,
                dw,
                (0u32, 0u32, dw, dh),
                resize_is_noop(sw, sh, (0u32, 0u32, dw, dh)),
                resized_bgra(src@.subrange(0, sw * sh * 4), sw, sh, dw, dh),
            )
        },
{
    let src_view = TypedImageRef::<U8x4>::from_buffer(sw, sh, src).map_err(ScaleError::ImageBuf)?;
    let mut dst_image = TypedImage::<U8x4>::from_buffer(dw, dh, dst).map_err(ScaleError::ImageBuf)?;
    let opts = ResizeOptions::new().use_alpha(false);
    resizer.resize_typed(&src_view, &mut dst_image, &opts).map_err(ScaleError::Fir)
}

/// Whether a placement rectangle is refused by `fast_image_resize`'s crop
/// check on a `dw` by `dh` canvas.
pub open spec fn crop_refused(roi: (u32, u32, u32, u32), dw: u32, dh: u32) -> bool {
    roi.0 >= dw || roi.1 >= dh || roi.0 + roi.2 > dw || roi.1 + roi.3 > dh
}

/// `Resizer::resize_typed` from the `sw` by `sh` BGRA8 picture at the start
/// of `src` into the rectangle `roi` of the `dw` by `dh` canvas at the
/// start of `dst`, through `TypedCroppedImageMut::from_ref`.  The views fail
/// with `ImageBuf` when a buffer is too short, then the crop fails with
/// `Crop` when the rectangle leaves the canvas; bytes outside the rectangle
/// are not written.
#[verifier::external_body]
fn resize_into_rect(
    resizer: &mut Resizer,
    src: &[u8],
    sw: u32,
    sh: u32,
    dst: &mut [u8],
    dw: u32,
    dh: u32,
    roi: (u32, u32, u32, u32),
) -> (r: Result<(), ScaleError>)
    requires
        sw * sh * 4 <= usize::MAX,
        dw * dh * 4 <= usize::MAX,
        roi.0 + roi.2 <= u32::MAX,
        roi.1 + roi.3 <= u32::MAX,
    ensures
        src@.len() < sw * sh * 4 || old(dst)@.len() < dw * dh * 4 ==> {
            &&& r is Err
            &&& r->Err_0 is ImageBuf
            &&& final(dst)@ == old(dst)@
        },
        !(src@.len() < sw * sh * 4 || old(dst)@.len() < dw * dh * 4) && crop_refused(roi, dw, dh) ==> {
            &&& r is Err
            &&& r->Err_0 is Crop
            &&& final(dst)@ == old(dst)@
        },
        !(src@.len() < sw * sh * 4 || old(dst)@.len() < dw * dh * 4) && !crop_refused(roi, dw, dh) ==> {
            &&& r is Ok
            &&& final(dst)@ == resize_result(
                old(dst)@,
                dw,
                roi,
                resize_is_noop(sw, sh, roi),
                resized_bgra(src@.subrange(0, sw * sh * 4), sw, sh, roi.2, roi.3),
            )
        },
{
    let src_view = TypedImageRef::<U8x4>::from_buffer(sw, sh, src).map_err(ScaleError::ImageBuf)?;
    let mut dst_image = TypedImage::<U8x4>::from_buffer(dw, dh, dst).map_err(ScaleError::ImageBuf)?;
    let mut cropped = TypedCroppedImageMut::from_ref(&mut dst_image, roi.0, roi.1, roi.2, roi.3).map_err(ScaleError::Crop)?;
    let opts = ResizeOptions::new().use_alpha(false);
    resizer.resize_typed(&src_view, &mut cropped, &opts).map_err(ScaleError::Fir)
}

/// `Resizer::new`: a resizer using the best CPU extensions available.
#[verifier::external_body]
pub(crate) fn new_resizer() -> Resizer {
    Resizer::new()
}

/// Scratch buffer that receives the rows of a strided source, tightly
/// packed.
pub struct Staging {
    pub(crate) buf: Vec<u8>,
}

impl Staging {
    /// The bytes held.
    pub closed spec fn bytes(&self) -> Seq<u8> {
        self.buf@
    }

    /// The bytes held are those of the buffer.
    pub(crate) proof fn lemma_bytes(&self)
        ensures
            self.bytes() == self.buf@,
    {
    }

    /// An empty staging buffer.
    pub fn with_capacity(cap: usize) -> (s: Self)
        ensures
            s.bytes() == Seq::<u8>::empty(),
    {
        Self { buf: Vec::with_capacity(cap) }
    }

    /// Grows the buffer with zeros to at least `len` bytes; never shrinks.
    pub fn ensure_len(&mut self, len: usize)
        ensures
            old(self).bytes().len() >= len ==> final(self).bytes() == old(self).bytes(),
            old(self).bytes().len() < len ==> final(self).bytes() == old(self).bytes() + Seq::new(
                (len - old(self).bytes().len()) as nat,
                |i: int| 0u8,
            ),
    {
        if self.buf.len() < len {
            let ghost before = self.buf@;
            self.buf.resize(len, 0);
            proof {
                assert forall|i: int| before.len() <= i < len implies self.buf@[i] == 0u8 by {
                    assert(cloned::<u8>(0u8, self.buf@[i]));
                }
                assert(self.buf@ =~= before + Seq::new((len - before.len()) as nat, |i: int| 0u8));
            }
        }
    }

    /// The bytes held.
    pub fn as_slice(&self) -> (s: &[u8])
        ensures
            s@ == self.bytes(),
    {
        self.buf.as_slice()
    }
}

/// `rows` rows of `row_bytes` bytes read from `src`, the first at `start`
/// and each next one `pitch` bytes further, tightly packed.
pub open spec fn rows_at(src: Seq<u8>, start: int, pitch: int, row_bytes: int, rows: int) -> Seq<u8> {
    Seq::new(rows as nat, |r: int| src.subrange(start + r * pitch, start + r * pitch + row_bytes)).flatten()
}

/// The rows of a strided picture, tightly packed: `rows` rows of
/// `row_bytes` bytes, row `r` taken at `r * pitch`.
pub open spec fn compacted(src: Seq<u8>, pitch: int, row_bytes: int, rows: int) -> Seq<u8> {
    rows_at(src, 0, pitch, row_bytes, rows)
}

/// Every row read from `start` on lies inside a source of `src_len` bytes.
pub open spec fn rows_readable_at(src_len: int, start: int, pitch: int, row_bytes: int, rows: int) -> bool {
    rows == 0 || start + (rows - 1) * pitch + row_bytes <= src_len
}

/// Every row of a strided picture lies inside the source.
pub open spec fn rows_readable(src_len: int, pitch: int, row_bytes: int, rows: int) -> bool {
    rows_readable_at(src_len, 0, pitch, row_bytes, rows)
}

/// Row `r` of a readable run of rows lies inside the source.
proof fn lemma_row_readable(src_len: int, start: int, pitch: int, row_bytes: int, rows: int, r: int)
    requires
        0 <= r < rows,
        0 <= start,
        0 <= pitch,
        0 <= row_bytes,
        rows_readable_at(src_len, start, pitch, row_bytes, rows),
    ensures
        0 <= r * pitch,
        start + r * pitch + row_bytes <= src_len,
{
    assert(0 <= r * pitch <= (rows - 1) * pitch) by (nonlinear_arith)
        requires 0 <= r <= rows - 1, 0 <= pitch;
}

/// The packed rows hold `rows * row_bytes` bytes.
pub(crate) proof fn lemma_rows_at_len(src: Seq<u8>, start: int, pitch: int, row_bytes: int, rows: int)
    requires
        0 <= rows,
        0 <= row_bytes,
        0 <= start,
        0 <= pitch,
        rows_readable_at(src.len() as int, start, pitch, row_bytes, rows),
    ensures
        rows_at(src, start, pitch, row_bytes, rows).len() == rows * row_bytes,
    decreases rows,
{
    let s = Seq::new(rows as nat, |r: int| src.subrange(start + r * pitch, start + r * pitch + row_bytes));
    if rows > 0 {
        lemma_row_readable(src.len() as int, start, pitch, row_bytes, rows, rows - 1);
        if rows > 1 {
            assert(rows_readable_at(src.len() as int, start, pitch, row_bytes, rows - 1)) by {
                assert((rows - 2) * pitch <= (rows - 1) * pitch) by (nonlinear_arith)
                    requires 0 <= pitch, rows >= 2;
            }
        }
        lemma_rows_at_len(src, start, pitch, row_bytes, rows - 1);
        let s2 = Seq::new((rows - 1) as nat, |r: int| src.subrange(start + r * pitch, start + r * pitch + row_bytes));
        assert(s =~= s2.push(s[rows - 1]));
        s2.lemma_flatten_push(s[rows - 1]);
        assert(rows * row_bytes == (rows - 1) * row_bytes + row_bytes) by (nonlinear_arith);
    }
}

/// Copies `rows` rows of `row_bytes` bytes, the first at `start` and each
/// next one `pitch` bytes further in `src`, to the front of `dst`, tightly
/// packed.
pub(crate) fn copy_rows(src: &[u8], start: usize, pitch: usize, dst: &mut Vec<u8>, row_bytes: usize, rows: usize)
    requires
        rows_readable_at(src@.len() as int, start as int, pitch as int, row_bytes as int, rows as int),
        rows * row_bytes <= old(dst)@.len(),
    ensures
        final(dst)@ == rows_at(src@, start as int, pitch as int, row_bytes as int, rows as int) + old(dst)@.subrange(
            rows * row_bytes,
            old(dst)@.len() as int,
        ),
{
    let ghost rows_seq = Seq::new(
        rows as nat,
        |r: int| src@.subrange(start + r * pitch, start + r * pitch + row_bytes),
    );
    let ghost orig = dst@;
    assert(src@.len() == src.len());
    let total = dst.len();
    assert(orig.len() == total);
    let mut r: usize = 0;
    while r < rows
        invariant
            src@.len() <= usize::MAX,
            orig.len() <= usize::MAX,
            rows_readable_at(src@.len() as int, start as int, pitch as int, row_bytes as int, rows as int),
            rows * row_bytes <= orig.len(),
            r <= rows,
            dst@.len() == orig.len(),
            rows_seq == Seq::new(
                rows as nat,
                |r: int| src@.subrange(start + r * pitch, start + r * pitch + row_bytes),
            ),
            r * row_bytes <= rows * row_bytes,
            dst@ == rows_seq.take(r as int).flatten() + orig.subrange(r * row_bytes, orig.len() as int),
        decreases rows - r,
    {
        proof {
            lemma_row_readable(src@.len() as int, start as int, pitch as int, row_bytes as int, rows as int, r as int);
            assert((r + 1) * row_bytes <= rows * row_bytes) by (nonlinear_arith)
                requires r + 1 <= rows;
            assert((r + 1) * row_bytes == r * row_bytes + row_bytes) by (nonlinear_arith);
            rows_seq.take(r as int).lemma_flatten_push(rows_seq[r as int]);
            assert(rows_seq.take(r + 1) =~= rows_seq.take(r as int).push(rows_seq[r as int]));
        }
        let src_off = start + r * pitch;
        let dst_off = r * row_bytes;
        let ghost prefix = rows_seq.take(r as int).flatten();
        assert(prefix.len() == dst_off) by {
            assert(dst@.len() == orig.len());
        }
        let mut k: usize = 0;
        while k < row_bytes
            invariant
                src@.len() <= usize::MAX,
                orig.len() <= usize::MAX,
                src_off + row_bytes <= src@.len(),
                dst_off + row_bytes <= orig.len(),
                k <= row_bytes,
                dst@.len() == orig.len(),
                prefix.len() == dst_off,
                dst@ == prefix + src@.subrange(src_off as int, src_off + k) + orig.subrange(dst_off + k, orig.len() as int),
            decreases row_bytes - k,
        {
            let b = src[src_off + k];
            dst.set(dst_off + k, b);
            assert(dst@ =~= prefix + src@.subrange(src_off as int, src_off + k + 1) + orig.subrange(dst_off + k + 1, orig.len() as int));
            k += 1;
        }
        r += 1;
    }
    assert(rows_seq.take(rows as int) =~= rows_seq);
}

/// Copies `rows` rows of `row_bytes` bytes from a source of row pitch
/// `src_pitch` to the front of `dst`, tightly packed.
fn compact_rows(src: &[u8], src_pitch: usize, dst: &mut Vec<u8>, row_bytes: usize, rows: usize)
    requires
        rows_readable(src@.len() as int, src_pitch as int, row_bytes as int, rows as int),
        rows * row_bytes <= old(dst)@.len(),
    ensures
        final(dst)@ == compacted(src@, src_pitch as int, row_bytes as int, rows as int) + old(dst)@.subrange(
            rows * row_bytes,
            old(dst)@.len() as int,
        ),
{
    copy_rows(src, 0, src_pitch, dst, row_bytes, rows);
}

/// `n` bytes of the repeated colour `bg`, followed by the rest of `base`.
pub open spec fn filled(base: Seq<u8>, n: int, bg: [u8; 4]) -> Seq<u8> {
    Seq::new(base.len(), |i: int| if i < n { bg@[i % 4] } else { base[i] })
}

/// Writes the colour `bg` into every whole 4-byte pixel of `dst`.
fn fill_bgra(dst: &mut [u8], bg: [u8; 4])
    requires
        old(dst)@.len() % 4 == 0,
    ensures
        final(dst)@ == filled(old(dst)@, old(dst)@.len() as int, bg),
{
    let ghost orig = dst@;
    let n = dst.len();
    let mut i: usize = 0;
    while n - i >= 4
        invariant
            n == dst@.len(),
            n == orig.len(),
            n % 4 == 0,
            i % 4 == 0,
            i <= n,
            forall|j: int| 0 <= j < i ==> dst@[j] == #[trigger] bg@[j % 4],
            forall|j: int| i <= j < n ==> dst@[j] == orig[j],
        decreases n - i,
    {
        dst[i] = bg[0];
        dst[i + 1] = bg[1];
        dst[i + 2] = bg[2];
        dst[i + 3] = bg[3];
        proof {
            assert forall|j: int| 0 <= j < i + 4 implies dst@[j] == #[trigger] bg@[j % 4] by {
                if j >= i {
                    assert(j % 4 == j - i);
                }
            }
        }
        i += 4;
    }
    assert(dst@ =~= filled(orig, orig.len() as int, bg));
}

/// Whether the source rows are strided (a pitch other than `w * 4`).
pub open spec fn is_strided(src: Size, src_stride_bytes: Option<usize>) -> bool {
    src_stride_bytes matches Some(p) && p != src.w * 4
}

/// The tightly packed source picture a scaling call reads.
pub open spec fn source_picture(src_bgra: Seq<u8>, src: Size, src_stride_bytes: Option<usize>) -> Seq<u8> {
    if is_strided(src, src_stride_bytes) {
        compacted(src_bgra, src_stride_bytes->Some_0 as int, src.w * 4, src.h as int)
    } else {
        src_bgra
    }
}

/// Bytes of a plan's output canvas.
pub open spec fn canvas_len(plan: ScalePlan) -> int {
    plan.out.w * plan.out.h * 4
}

/// The canvas before the resize: filled with the background colour when
/// the plan pads.
pub open spec fn prepared(dst: Seq<u8>, plan: ScalePlan) -> Seq<u8> {
    match plan.aspect {
        AspectMode::Pad { bg_rgba } => filled(dst, canvas_len(plan), bg_rgba),
        _ => dst,
    }
}

/// Where the resized picture goes.
pub open spec fn target_rect(plan: ScalePlan) -> (u32, u32, u32, u32) {
    match plan.dst_roi {
        Some(roi) => roi,
        None => (0u32, 0u32, plan.out.w, plan.out.h),
    }
}

/// What scaling leaves in `dst` once the resize has run.
pub open spec fn scaled_output(src_bgra: Seq<u8>, src: Size, src_stride_bytes: Option<usize>, plan: ScalePlan, dst: Seq<u8>) -> Seq<u8> {
    let rect = target_rect(plan);
    resize_result(
        prepared(dst, plan),
        plan.out.w,
        rect,
        resize_is_noop(src.w, src.h, rect),
        resized_into(source_picture(src_bgra, src, src_stride_bytes), src.w, src.h, rect),
    )
}

/// The sizes a scaling call works with fit the machine's words.
pub open spec fn scale_fits(src: Size, plan: ScalePlan) -> bool {
    &&& src.w * 4 <= usize::MAX
    &&& plan.out.w * plan.out.h * 4 <= usize::MAX
    &&& src.w * src.h * 4 <= usize::MAX
    &&& (plan.dst_roi matches Some(roi) ==> roi.0 + roi.2 <= u32::MAX && roi.1 + roi.3 <= u32::MAX)
}

/// What a scaling call returns and leaves in its destination: a
/// destination smaller than the canvas, a strided source without staging,
/// or a tightly packed source shorter than its picture is refused with the
/// destination untouched; a placement outside the canvas is refused after
/// the padding fill; otherwise the picture is scaled into the canvas.
pub open spec fn scale_outcome(
    src_bgra: Seq<u8>,
    src: Size,
    src_stride_bytes: Option<usize>,
    plan: ScalePlan,
    has_staging: bool,
    before: Seq<u8>,
    r: Result<(), ScaleError>,
    after: Seq<u8>,
) -> bool {
    if before.len() < canvas_len(plan) {
        &&& r is Err
        &&& r->Err_0 is BufferTooSmall
        &&& after == before
    } else if is_strided(src, src_stride_bytes) && !has_staging {
        &&& r is Err
        &&& r->Err_0 is StrideMismatchAndNoStaging
        &&& after == before
    } else if !is_strided(src, src_stride_bytes) && src_bgra.len() < src.w * src.h * 4 {
        &&& r is Err
        &&& r->Err_0 is ImageBuf
        &&& after == before
    } else if plan.dst_roi is Some && crop_refused(target_rect(plan), plan.out.w, plan.out.h) {
        &&& r is Err
        &&& r->Err_0 is Crop
        &&& after == prepared(before, plan)
    } else {
        &&& r is Ok
        &&& after == scaled_output(src_bgra, src, src_stride_bytes, plan, before)
    }
}

/// Scales the BGRA8 picture `src_bgra` of size `src` as `plan` says into
/// `dst`, which must hold at least `plan.out.w * plan.out.h * 4` bytes.
/// A strided source (`src_stride_bytes` other than `src.w * 4`) is first
/// compacted into `staging`.
pub fn scale_bgra_cpu(
    resizer: &mut Resizer,
    src_bgra: &[u8],
    src: Size,
    src_stride_bytes: Option<usize>,
    plan: &ScalePlan,
    dst: &mut [u8],
    staging: Option<&mut Staging>,
) -> (r: Result<(), ScaleError>)
    requires
        scale_fits(src, *plan),
        old(dst)@.len() >= canvas_len(*plan) && is_strided(src, src_stride_bytes) && staging is Some
            ==> rows_readable(src_bgra@.len() as int, src_stride_bytes->Some_0 as int, src.w * 4, src.h as int),
    ensures
        scale_outcome(src_bgra@, src, src_stride_bytes, *plan, staging is Some, old(dst)@, r, final(dst)@),
        staging matches Some(st) ==> {
            if old(dst)@.len() >= canvas_len(*plan) && is_strided(src, src_stride_bytes) {
                let n = src.w * 4 * src.h;
                &&& final(st).bytes().len() == if st.bytes().len() >= n { st.bytes().len() as int } else { n }
                &&& final(st).bytes().subrange(0, n) == compacted(
                    src_bgra@,
                    src_stride_bytes->Some_0 as int,
                    src.w * 4,
                    src.h as int,
                )
            } else {
                final(st).bytes() == st.bytes()
            }
        },
{
    let dst_len = (plan.out.w as usize) * (plan.out.h as usize) * 4;
    if dst.len() < dst_len {
        return Err(ScaleError::BufferTooSmall);
    }
    let tight_row_bytes = (src.w as usize) * 4;
    proof {
        assert(src.w * 4 * src.h == src.w * src.h * 4) by (nonlinear_arith);
    }
    let strided = match src_stride_bytes {
        Some(pitch) => pitch != tight_row_bytes,
        None => false,
    };
    if strided {
        match staging {
            Some(st) => {
                let pitch = match src_stride_bytes {
                    Some(p) => p,
                    None => 0,
                };
                let n = tight_row_bytes * (src.h as usize);
                st.ensure_len(n);
                assert((src.h as usize) * tight_row_bytes == n) by (nonlinear_arith)
                    requires n == tight_row_bytes * (src.h as usize);
                compact_rows(src_bgra, pitch, &mut st.buf, tight_row_bytes, src.h as usize);
                proof {
                    let c = compacted(src_bgra@, pitch as int, tight_row_bytes as int, src.h as int);
                    lemma_rows_at_len(src_bgra@, 0, pitch as int, tight_row_bytes as int, src.h as int);
                    assert(st.buf@.subrange(0, n as int) =~= c);
                    assert(c.subrange(0, n as int) =~= c);
                    assert(st.buf@.subrange(0, (src.w * src.h * 4) as int) =~= c);
                }
                finish_scale(resizer, st.as_slice(), src, plan, dst, dst_len)
            },
            None => Err(ScaleError::StrideMismatchAndNoStaging),
        }
    } else {
        finish_scale(resizer, src_bgra, src, plan, dst, dst_len)
    }
}

/// Fills the canvas when padding, then resizes the tightly packed picture
/// at the start of `pic` into it.
fn finish_scale(resizer: &mut Resizer, pic: &[u8], src: Size, plan: &ScalePlan, dst: &mut [u8], dst_len: usize) -> (r: Result<(), ScaleError>)
    requires
        scale_fits(src, *plan),
        dst_len == canvas_len(*plan),
        old(dst)@.len() >= dst_len,
    ensures
        pic@.len() < src.w * src.h * 4 ==> {
            &&& r is Err
            &&& r->Err_0 is ImageBuf
            &&& final(dst)@ == old(dst)@
        },
        pic@.len() >= src.w * src.h * 4 ==> {
            let rect = target_rect(*plan);
            if plan.dst_roi is Some && crop_refused(rect, plan.out.w, plan.out.h) {
                &&& r is Err
                &&& r->Err_0 is Crop
                &&& final(dst)@ == prepared(old(dst)@, *plan)
            } else {
                &&& r is Ok
                &&& final(dst)@ == resize_result(
                    prepared(old(dst)@, *plan),
                    plan.out.w,
                    rect,
                    resize_is_noop(src.w, src.h, rect),
                    resized_into(pic@, src.w, src.h, rect),
                )
            }
        },
{
    let need = (src.w as usize) * (src.h as usize) * 4;
    if pic.len() < need {
        // the source view is refused before the canvas is touched
        return resize_onto_canvas(resizer, pic, src.w, src.h, dst, plan.out.w, plan.out.h);
    }
    match plan.aspect {
        AspectMode::Pad { bg_rgba } => {
            let ghost before = dst@;
            let (canvas, _rest) = dst.split_at_mut(dst_len);
            proof {
                assert(dst_len % 4 == 0) by (nonlinear_arith)
                    requires dst_len == plan.out.w * plan.out.h * 4;
            }
            fill_bgra(canvas, bg_rgba);
            assert(dst@ =~= filled(before, dst_len as int, bg_rgba));
        },
        _ => {},
    }
    match plan.dst_roi {
        Some(roi) => resize_into_rect(resizer, pic, src.w, src.h, dst, plan.out.w, plan.out.h, roi),
        None => resize_onto_canvas(resizer, pic, src.w, src.h, dst, plan.out.w, plan.out.h),
    }
}

/// Scaling a strided source gives what scaling its rows, first packed
/// tightly, gives: the row padding never reaches the output.
pub proof fn lemma_strided_scaling_reads_packed_rows(
    src_bgra: Seq<u8>,
    src: Size,
    pitch: usize,
    plan: ScalePlan,
    dst: Seq<u8>,
)
    requires
        pitch != src.w * 4,
    ensures
        scaled_output(src_bgra, src, Some(pitch), plan, dst) == scaled_output(
            compacted(src_bgra, pitch as int, src.w * 4, src.h as int),
            src,
            None,
            plan,
            dst,
        ),
{
}

/// Scaling writes the resized picture into its placement; around it a
/// padded plan paints the rest of the canvas in the background colour and
/// any other plan leaves it as it was; bytes past the canvas are never
/// touched.
pub proof fn lemma_scaling_places_picture(src_bgra: Seq<u8>, src: Size, plan: ScalePlan, dst: Seq<u8>)
    requires
        src.w >= 1,
        src.h >= 1,
        plan.out.w >= 1,
        dst.len() >= plan.out.w * plan.out.h * 4,
        plan.dst_roi matches Some(roi) ==> roi.2 >= 1 && roi.3 >= 1 && roi.0 + roi.2 <= plan.out.w && roi.1
            + roi.3 <= plan.out.h,
        plan.dst_roi is None ==> plan.out.h >= 1,
    ensures
        ({
            let out = scaled_output(src_bgra, src, None, plan, dst);
            let (x, y, pw, ph) = match plan.dst_roi {
                Some(roi) => roi,
                None => (0u32, 0u32, plan.out.w, plan.out.h),
            };
            let pic = resized_bgra(src_bgra.subrange(0, src.w * src.h * 4), src.w, src.h, pw, ph);
            let ow = plan.out.w as int;
            &&& out.len() == dst.len()
            &&& forall|i: int|
                0 <= i < dst.len() ==> #[trigger] out[i] == {
                    let row = (i / 4) / ow;
                    let col = (i / 4) % ow;
                    if y <= row < y + ph && x <= col < x + pw {
                        pic[((row - y) * pw + (col - x)) * 4 + i % 4]
                    } else if i < plan.out.w * plan.out.h * 4 {
                        match plan.aspect {
                            AspectMode::Pad { bg_rgba } => bg_rgba@[i % 4],
                            _ => dst[i],
                        }
                    } else {
                        dst[i]
                    }
                }
        }),
{
    let ow = plan.out.w as int;
    let oh = plan.out.h as int;
    let out = scaled_output(src_bgra, src, None, plan, dst);
    assert forall|i: int| 0 <= i < dst.len() implies #[trigger] out[i] == {
        let (x, y, pw, ph) = match plan.dst_roi {
            Some(roi) => roi,
            None => (0u32, 0u32, plan.out.w, plan.out.h),
        };
        let pic = resized_bgra(src_bgra.subrange(0, src.w * src.h * 4), src.w, src.h, pw, ph);
        let row = (i / 4) / ow;
        let col = (i / 4) % ow;
        if y <= row < y + ph && x <= col < x + pw {
            pic[((row - y) * pw + (col - x)) * 4 + i % 4]
        } else if i < plan.out.w * plan.out.h * 4 {
            match plan.aspect {
                AspectMode::Pad { bg_rgba } => bg_rgba@[i % 4],
                _ => dst[i],
            }
        } else {
            dst[i]
        }
    } by {
        if i >= ow * oh * 4 {
            assert(i / 4 >= ow * oh) by (nonlinear_arith)
                requires i >= ow * oh * 4;
            assert((i / 4) / ow >= oh) by (nonlinear_arith)
                requires i / 4 >= ow * oh, ow >= 1;
        }
    }
}

} // verus!
