//! Scaling plans and token-saving presets.
//!
//! A plan decides the output canvas of a resize from the input size, a size
//! constraint (`ScaleTarget`) and an aspect strategy (`AspectMode`).  All
//! arithmetic is exact: a side `x` scaled by the rational factor `n / d` is
//! `round(x * n / d)` (halves rounded up), and never less than one pixel.
use vstd::arithmetic::div_mod::{lemma_multiply_divide_le, lemma_multiply_divide_lt};
use vstd::prelude::*;

verus! {

/// A 2D size in pixels.
#[derive(Clone, Copy, Debug)]
pub struct Size {
    pub w: u32,
    pub h: u32,
}

/// How aspect-ratio differences are handled.
#[derive(Clone, Copy, Debug)]
pub enum AspectMode {
    /// Keep the aspect ratio; the output fits inside the target bounds.
    Preserve,
    /// Stretch to exactly the target dimensions.
    Distort,
    /// Keep the aspect ratio and pad to exactly the target dimensions.
    Pad { bg_rgba: [u8; 4] },
}

/// The size constraint of a plan.
#[derive(Clone, Copy, Debug)]
pub enum ScaleTarget {
    /// Clamp the longest side to this many pixels.
    MaxLongSide(u32),
    /// Force an exact output canvas.
    Exact(Size),
}

/// A complete scaling plan.
#[derive(Clone, Copy, Debug)]
pub struct ScalePlan {
    pub input: Size,
    pub target: ScaleTarget,
    pub aspect: AspectMode,
    /// Final output canvas.
    pub out: Size,
    /// Where the scaled picture is placed inside the canvas when padding:
    /// `(x, y, w, h)`.
    pub dst_roi: Option<(u32, u32, u32, u32)>,
}

/// `x` rounded to the nearest integer, halves up, for `x = p / q`.
pub open spec fn round_ratio(p: int, q: int) -> int {
    (2 * p + q) / (2 * q)
}

/// At least one pixel.
pub open spec fn at_least_one(x: int) -> int {
    if x < 1 { 1 } else { x }
}

/// One side scaled by `n / d`.
pub open spec fn scaled_side(x: int, n: int, d: int) -> int {
    at_least_one(round_ratio(x * n, d))
}

/// The factor `min(max_long / longest side, 1)` as a fraction `(n, d)`;
/// an empty input keeps the factor one.
pub open spec fn preserve_factor(input: Size, max_long: u32) -> (int, int) {
    let long = if input.w >= input.h { input.w } else { input.h };
    if long == 0 || max_long >= long { (1, 1) } else { (max_long as int, long as int) }
}

/// The factor `min(box.w / w, box.h / h, 1)` as a fraction `(n, d)`; a side
/// of the input that is zero sets no bound.
pub open spec fn within_factor(input: Size, bounds: Size) -> (int, int) {
    let s1: (int, int) = if input.w > 0 && bounds.w < input.w {
        (bounds.w as int, input.w as int)
    } else {
        (1, 1)
    };
    if input.h > 0 && bounds.h * s1.1 < s1.0 * input.h {
        (bounds.h as int, input.h as int)
    } else {
        s1
    }
}

/// Both sides of `input` scaled by the factor `f`.
pub open spec fn scaled_size(input: Size, f: (int, int)) -> Size {
    Size {
        w: scaled_side(input.w as int, f.0, f.1) as u32,
        h: scaled_side(input.h as int, f.0, f.1) as u32,
    }
}

/// The output of fitting `input` so that its longest side is at most
/// `max_long`, without upscaling.
pub open spec fn spec_fit_preserve(input: Size, max_long: u32) -> Size {
    scaled_size(input, preserve_factor(input, max_long))
}

/// The output of fitting `input` inside `bounds`, without upscaling.
pub open spec fn spec_fit_within(input: Size, bounds: Size) -> Size {
    scaled_size(input, within_factor(input, bounds))
}

/// The placement of `inner` centred in `outer`.
pub open spec fn centred(outer: Size, inner: Size) -> (u32, u32, u32, u32) {
    (((outer.w - inner.w) / 2) as u32, ((outer.h - inner.h) / 2) as u32, inner.w, inner.h)
}

/// Whether a plan can be computed: padding needs a canvas at least as large
/// as the one-pixel minimum of the fitted picture.
pub open spec fn plan_defined(target: ScaleTarget, aspect: AspectMode) -> bool {
    match (target, aspect) {
        (ScaleTarget::MaxLongSide(m), AspectMode::Pad { .. }) => m >= 1,
        (ScaleTarget::Exact(b), AspectMode::Pad { .. }) => b.w >= 1 && b.h >= 1,
        _ => true,
    }
}

/// The output canvas and placement of a plan.
pub open spec fn spec_plan(input: Size, target: ScaleTarget, aspect: AspectMode) -> ScalePlan {
    let (out, roi) = match (target, aspect) {
        (ScaleTarget::MaxLongSide(m), AspectMode::Preserve) => (spec_fit_preserve(input, m), None),
        (ScaleTarget::MaxLongSide(m), AspectMode::Distort) => (Size { w: m, h: m }, None),
        (ScaleTarget::MaxLongSide(m), AspectMode::Pad { .. }) => {
            let canvas = Size { w: m, h: m };
            (canvas, Some(centred(canvas, spec_fit_preserve(input, m))))
        },
        (ScaleTarget::Exact(b), AspectMode::Distort) => (b, None),
        (ScaleTarget::Exact(b), AspectMode::Preserve) => (spec_fit_within(input, b), None),
        (ScaleTarget::Exact(b), AspectMode::Pad { .. }) => (b, Some(centred(b, spec_fit_within(input, b)))),
    };
    ScalePlan { input, target, aspect, out, dst_roi: roi }
}

/// Rounding a value `x * n / d` with `n <= d` never exceeds `x`.
proof fn lemma_round_ratio_bounded(x: int, n: int, d: int)
    requires
        0 <= x,
        0 <= n <= d,
        0 < d,
    ensures
        0 <= round_ratio(x * n, d) <= x,
{
    assert(x * n <= x * d) by (nonlinear_arith)
        requires 0 <= x, n <= d;
    assert(0 <= x * n) by (nonlinear_arith)
        requires 0 <= x, 0 <= n;
    assert(2 * (x * n) + d < (2 * d) * (x + 1)) by (nonlinear_arith)
        requires x * n <= x * d, 0 < d;
    lemma_multiply_divide_lt(2 * (x * n) + d, 2 * d, x + 1);
    assert(0 <= (2 * (x * n) + d) / (2 * d)) by (nonlinear_arith)
        requires 0 <= 2 * (x * n) + d, 0 < 2 * d;
}

/// Rounding `x * n / d` stays within any integer bound `b` with
/// `x * n <= b * d`.
proof fn lemma_round_ratio_within(x: int, n: int, d: int, b: int)
    requires
        0 <= x,
        0 <= n,
        0 < d,
        x * n <= b * d,
    ensures
        round_ratio(x * n, d) <= b,
{
    assert(2 * (x * n) + d < (2 * d) * (b + 1)) by (nonlinear_arith)
        requires x * n <= b * d, 0 < d;
    lemma_multiply_divide_lt(2 * (x * n) + d, 2 * d, b + 1);
}

/// Products of bounded non-negative numbers are bounded.
proof fn lemma_mul_le(a: int, b: int, ba: int, bb: int)
    requires
        0 <= a <= ba,
        0 <= b <= bb,
    ensures
        0 <= a * b <= ba * bb,
{
    assert(0 <= a * b <= ba * bb) by (nonlinear_arith)
        requires 0 <= a <= ba, 0 <= b <= bb;
}

/// Scales one side by `n / d` with `n <= d`.
fn scale_side(x: u32, n: u64, d: u64) -> (r: u32)
    requires
        0 < d,
        n <= d,
    ensures
        r as int == scaled_side(x as int, n as int, d as int),
        1 <= r,
        r <= if x < 1 { 1 } else { x },
{
    proof {
        lemma_round_ratio_bounded(x as int, n as int, d as int);
    }
    proof {
        lemma_mul_le(x as int, n as int, 0xffff_ffff, 0xffff_ffff_ffff_ffff);
    }
    let p: u128 = (x as u128) * (n as u128);
    let q: u128 = (2 * p + d as u128) / (2 * d as u128);
    assert(q == round_ratio(x as int * n as int, d as int));
    if q < 1 {
        1
    } else {
        q as u32
    }
}

/// Fits the input so that its longest side is at most `max_long`,
/// preserving the aspect ratio and never upscaling.
fn fit_preserve(input: Size, max_long: u32) -> (r: (u32, u32))
    ensures
        r.0 == spec_fit_preserve(input, max_long).w,
        r.1 == spec_fit_preserve(input, max_long).h,
{
    let long = if input.w >= input.h { input.w } else { input.h };
    let (n, d): (u64, u64) = if long == 0 || max_long >= long {
        (1, 1)
    } else {
        (max_long as u64, long as u64)
    };
    (scale_side(input.w, n, d), scale_side(input.h, n, d))
}

/// Fits the input inside `bounds`, preserving the aspect ratio and never
/// upscaling.
fn fit_within(input: Size, bounds: Size) -> (r: (u32, u32))
    ensures
        r.0 == spec_fit_within(input, bounds).w,
        r.1 == spec_fit_within(input, bounds).h,
{
    let mut n: u64 = 1;
    let mut d: u64 = 1;
    if input.w > 0 && bounds.w < input.w {
        n = bounds.w as u64;
        d = input.w as u64;
    }
    proof {
        lemma_mul_le(bounds.h as int, d as int, 0xffff_ffff, 0xffff_ffff_ffff_ffff);
        lemma_mul_le(n as int, input.h as int, 0xffff_ffff_ffff_ffff, 0xffff_ffff);
    }
    let lhs: u128 = (bounds.h as u128) * (d as u128);
    let rhs: u128 = (n as u128) * (input.h as u128);
    assert(n <= d && 0 < d);
    if input.h > 0 && lhs < rhs {
        proof {
            assert(bounds.h < input.h) by (nonlinear_arith)
                requires
                    (bounds.h as int) * (d as int) < (n as int) * (input.h as int),
                    n <= d,
                    0 < d,
                    0 < input.h;
        }
        n = bounds.h as u64;
        d = input.h as u64;
    }
    (scale_side(input.w, n, d), scale_side(input.h, n, d))
}

/// The factor of `preserve_factor` is a fraction in `[0, 1]`.
proof fn lemma_preserve_factor(input: Size, max_long: u32)
    ensures
        0 <= preserve_factor(input, max_long).0 <= preserve_factor(input, max_long).1,
        0 < preserve_factor(input, max_long).1,
{
}

/// The factor of `within_factor` is a fraction in `[0, 1]`.
proof fn lemma_within_factor(input: Size, bounds: Size)
    ensures
        0 <= within_factor(input, bounds).0 <= within_factor(input, bounds).1,
        0 < within_factor(input, bounds).1,
{
    let s1: (int, int) = if input.w > 0 && bounds.w < input.w {
        (bounds.w as int, input.w as int)
    } else {
        (1, 1)
    };
    if input.h > 0 && bounds.h * s1.1 < s1.0 * input.h {
        assert(bounds.h < input.h) by (nonlinear_arith)
            requires
                bounds.h * s1.1 < s1.0 * input.h,
                0 <= s1.0 <= s1.1,
                0 < input.h;
    }
}

/// A side scaled by a factor in `[0, 1]` is between one pixel and
/// `max(x, 1)`.
proof fn lemma_scaled_side_bounded(x: int, n: int, d: int)
    requires
        0 <= x,
        0 <= n <= d,
        0 < d,
    ensures
        1 <= scaled_side(x, n, d) <= at_least_one(x),
{
    lemma_round_ratio_bounded(x, n, d);
}

/// Fitting by the longest side never upscales, never goes below one pixel,
/// and keeps both sides within `max(max_long, 1)`.
pub proof fn lemma_fit_preserve_bounded(input: Size, max_long: u32)
    ensures
        1 <= spec_fit_preserve(input, max_long).w <= at_least_one(input.w as int),
        1 <= spec_fit_preserve(input, max_long).h <= at_least_one(input.h as int),
        spec_fit_preserve(input, max_long).w <= at_least_one(max_long as int),
        spec_fit_preserve(input, max_long).h <= at_least_one(max_long as int),
{
    let f = preserve_factor(input, max_long);
    lemma_preserve_factor(input, max_long);
    lemma_scaled_side_bounded(input.w as int, f.0, f.1);
    lemma_scaled_side_bounded(input.h as int, f.0, f.1);
    let long = if input.w >= input.h { input.w } else { input.h };
    if !(long == 0 || max_long >= long) {
        assert(input.w * max_long <= max_long * long) by (nonlinear_arith)
            requires input.w <= long;
        assert(input.h * max_long <= max_long * long) by (nonlinear_arith)
            requires input.h <= long;
        lemma_round_ratio_within(input.w as int, max_long as int, long as int, max_long as int);
        lemma_round_ratio_within(input.h as int, max_long as int, long as int, max_long as int);
    }
}

/// Fitting inside a box never upscales, never goes below one pixel, and
/// stays inside the box when the box is at least one pixel wide and high.
pub proof fn lemma_fit_within_bounded(input: Size, bounds: Size)
    ensures
        1 <= spec_fit_within(input, bounds).w <= at_least_one(input.w as int),
        1 <= spec_fit_within(input, bounds).h <= at_least_one(input.h as int),
        bounds.w >= 1 ==> spec_fit_within(input, bounds).w <= bounds.w,
        bounds.h >= 1 ==> spec_fit_within(input, bounds).h <= bounds.h,
{
    let f = within_factor(input, bounds);
    lemma_within_factor(input, bounds);
    lemma_scaled_side_bounded(input.w as int, f.0, f.1);
    lemma_scaled_side_bounded(input.h as int, f.0, f.1);
    let w = input.w as int;
    let h = input.h as int;
    let bw = bounds.w as int;
    let bh = bounds.h as int;
    let s1: (int, int) = if w > 0 && bw < w { (bw, w) } else { (1, 1) };
    if h > 0 && bh * s1.1 < s1.0 * h {
        // the height bound decides: n / d == bh / h
        assert(bh < h) by (nonlinear_arith)
            requires bh * s1.1 < s1.0 * h, 0 <= s1.0 <= s1.1, 0 < h;
        assert(h * bh <= bh * h) by (nonlinear_arith);
        lemma_round_ratio_within(h, bh, h, bh);
        if w > 0 && bw < w {
            assert(w * bh <= bw * h) by (nonlinear_arith)
                requires bh * w < bw * h;
        } else {
            assert(w * bh <= bw * h) by (nonlinear_arith)
                requires w == 0 || bw >= w, bh < h, 0 <= w, 0 <= bh, 0 <= bw, 0 <= h;
        }
        lemma_round_ratio_within(w, bh, h, bw);
    } else if w > 0 && bw < w {
        // the width bound decides: n / d == bw / w
        assert(w * bw <= bw * w) by (nonlinear_arith);
        lemma_round_ratio_within(w, bw, w, bw);
        assert(h * bw <= bh * w) by (nonlinear_arith)
            requires h == 0 || bh * w >= bw * h, 0 <= h, 0 <= bw, 0 <= bh, 0 <= w;
        lemma_round_ratio_within(h, bw, w, bh);
    } else {
        assert(round_ratio(w * 1, 1) == w) by {
            assert(w * 1 == w);
            assert((2 * w + 1) / 2 == w);
        }
        assert(round_ratio(h * 1, 1) == h) by {
            assert(h * 1 == h);
            assert((2 * h + 1) / 2 == h);
        }
    }
}

/// Scaling a side of `x >= 1` pixels by `n / x` gives exactly `n`.
proof fn lemma_round_exact(x: int, n: int)
    requires
        x >= 1,
        n >= 0,
    ensures
        round_ratio(x * n, x) == n,
{
    assert(2 * (x * n) + x == n * (2 * x) + x) by (nonlinear_arith);
    vstd::arithmetic::div_mod::lemma_fundamental_div_mod_converse_div(2 * (x * n) + x, 2 * x, n, x);
}

/// Fitting a picture inside a box scales both sides by one factor of at
/// most one, stays inside the box, and is the largest such fit: a side
/// reaches the box, or the picture already fitted and is kept whole.
pub proof fn lemma_fit_within_is_largest_fit(input: Size, bounds: Size)
    requires
        input.w >= 1,
        input.h >= 1,
        bounds.w >= 1,
        bounds.h >= 1,
    ensures
        ({
            let out = spec_fit_within(input, bounds);
            &&& 1 <= out.w <= bounds.w
            &&& 1 <= out.h <= bounds.h
            &&& out.w <= input.w
            &&& out.h <= input.h
            &&& (out.w == bounds.w || out.h == bounds.h || (out.w == input.w && out.h == input.h))
            &&& exists|n: int, d: int|
                0 <= n <= d && 0 < d && out.w == #[trigger] scaled_side(input.w as int, n, d) && out.h
                    == scaled_side(input.h as int, n, d)
        }),
{
    lemma_fit_within_bounded(input, bounds);
    lemma_within_factor(input, bounds);
    let f = within_factor(input, bounds);
    let w = input.w as int;
    let h = input.h as int;
    let bw = bounds.w as int;
    let bh = bounds.h as int;
    let s1: (int, int) = if bw < w { (bw, w) } else { (1, 1) };
    let out = spec_fit_within(input, bounds);
    if bh * s1.1 < s1.0 * h {
        assert(f == (bh, h));
        lemma_round_exact(h, bh);
        assert(scaled_side(h, bh, h) == bh);
        assert(out.h == bounds.h);
    } else if bw < w {
        assert(f == (bw, w));
        lemma_round_exact(w, bw);
        assert(scaled_side(w, bw, w) == bw);
        assert(out.w == bounds.w);
    } else {
        assert(f == (1int, 1int));
        assert(round_ratio(w * 1, 1) == w) by {
            assert(w * 1 == w);
            assert((2 * w + 1) / 2 == w);
        }
        assert(round_ratio(h * 1, 1) == h) by {
            assert(h * 1 == h);
            assert((2 * h + 1) / 2 == h);
        }
        assert(out.w == input.w && out.h == input.h);
    }
    lemma_scaled_side_bounded(w, f.0, f.1);
    lemma_scaled_side_bounded(h, f.0, f.1);
    assert(out.w == scaled_side(w, f.0, f.1) && out.h == scaled_side(h, f.0, f.1));
    assert(out.w <= input.w && out.h <= input.h);
    assert(out.w == bounds.w || out.h == bounds.h || (out.w == input.w && out.h == input.h));
}

/// A plan that fits inside a box without padding has the largest picture
/// that keeps the aspect ratio inside the box, and places it on the whole
/// canvas.
pub proof fn lemma_exact_preserve_plan_fits_box(input: Size, bounds: Size)
    requires
        input.w >= 1,
        input.h >= 1,
        bounds.w >= 1,
        bounds.h >= 1,
    ensures
        ({
            let plan = spec_plan(input, ScaleTarget::Exact(bounds), AspectMode::Preserve);
            let out = plan.out;
            &&& plan.dst_roi is None
            &&& 1 <= out.w <= bounds.w
            &&& 1 <= out.h <= bounds.h
            &&& out.w <= input.w
            &&& out.h <= input.h
            &&& (out.w == bounds.w || out.h == bounds.h || (out.w == input.w && out.h == input.h))
            &&& exists|n: int, d: int|
                0 <= n <= d && 0 < d && out.w == #[trigger] scaled_side(input.w as int, n, d) && out.h
                    == scaled_side(input.h as int, n, d)
        }),
{
    lemma_fit_within_is_largest_fit(input, bounds);
}

/// A padded plan inside a box fills the whole box and places the largest
/// aspect-keeping fit of the picture centred in it.
pub proof fn lemma_exact_pad_plan_centres_fit(input: Size, bounds: Size, bg: [u8; 4])
    requires
        input.w >= 1,
        input.h >= 1,
        bounds.w >= 1,
        bounds.h >= 1,
    ensures
        ({
            let plan = spec_plan(input, ScaleTarget::Exact(bounds), AspectMode::Pad { bg_rgba: bg });
            &&& plan.out == bounds
            &&& plan.aspect == AspectMode::Pad { bg_rgba: bg }
            &&& plan.dst_roi matches Some(roi) && {
                let (x, y, pw, ph) = roi;
                &&& 1 <= pw <= bounds.w
                &&& 1 <= ph <= bounds.h
                &&& pw <= input.w
                &&& ph <= input.h
                &&& x == (bounds.w - pw) / 2
                &&& y == (bounds.h - ph) / 2
                &&& (pw == bounds.w || ph == bounds.h || (pw == input.w && ph == input.h))
                &&& exists|n: int, d: int|
                    0 <= n <= d && 0 < d && pw == #[trigger] scaled_side(input.w as int, n, d) && ph
                        == scaled_side(input.h as int, n, d)
            }
        }),
{
    lemma_fit_within_is_largest_fit(input, bounds);
}

/// A plan by the longest side without padding clamps a longer picture's
/// longest side exactly to the limit and keeps a picture within the limit
/// whole, scaling both sides by one factor.
pub proof fn lemma_long_side_preserve_plan(input: Size, max_long: u32)
    requires
        input.w >= 1,
        input.h >= 1,
        max_long >= 1,
    ensures
        ({
            let plan = spec_plan(input, ScaleTarget::MaxLongSide(max_long), AspectMode::Preserve);
            let out = plan.out;
            &&& plan.dst_roi is None
            &&& 1 <= out.w <= max_long
            &&& 1 <= out.h <= max_long
            &&& (input.w > max_long || input.h > max_long) ==> {
                &&& input.w >= input.h ==> out.w == max_long
                &&& input.w < input.h ==> out.h == max_long
            }
            &&& (input.w <= max_long && input.h <= max_long) ==> out == input
            &&& exists|n: int, d: int|
                0 <= n <= d && 0 < d && out.w == #[trigger] scaled_side(input.w as int, n, d) && out.h
                    == scaled_side(input.h as int, n, d)
        }),
{
    lemma_fit_preserve_bounded(input, max_long);
    lemma_preserve_factor(input, max_long);
    if input.w > max_long || input.h > max_long {
        lemma_fit_preserve_clamps_long_side(input, max_long);
    } else {
        lemma_fit_preserve_small_unchanged(input, max_long);
    }
    let f = preserve_factor(input, max_long);
    let out = spec_fit_preserve(input, max_long);
    lemma_scaled_side_bounded(input.w as int, f.0, f.1);
    lemma_scaled_side_bounded(input.h as int, f.0, f.1);
    assert(out.w == scaled_side(input.w as int, f.0, f.1) && out.h == scaled_side(input.h as int, f.0, f.1));
}

/// Computes the complete scaling plan for `input` under `target` and
/// `aspect`.
pub fn build_plan(input: Size, target: ScaleTarget, aspect: AspectMode) -> (plan: ScalePlan)
    requires
        plan_defined(target, aspect),
    ensures
        plan == spec_plan(input, target, aspect),
{
    match (target, aspect) {
        (ScaleTarget::MaxLongSide(max_side), AspectMode::Preserve) => {
            let (w, h) = fit_preserve(input, max_side);
            ScalePlan { input, target, aspect, out: Size { w, h }, dst_roi: None }
        },
        (ScaleTarget::MaxLongSide(max_side), AspectMode::Distort) => {
            let out = Size { w: max_side, h: max_side };
            ScalePlan { input, target, aspect, out, dst_roi: None }
        },
        (ScaleTarget::MaxLongSide(max_side), AspectMode::Pad { .. }) => {
            let out = Size { w: max_side, h: max_side };
            let (rw, rh) = fit_preserve(input, max_side);
            proof {
                lemma_fit_preserve_bounded(input, max_side);
            }
            let x = (out.w - rw) / 2;
            let y = (out.h - rh) / 2;
            ScalePlan { input, target, aspect, out, dst_roi: Some((x, y, rw, rh)) }
        },
        (ScaleTarget::Exact(out), AspectMode::Distort) => {
            ScalePlan { input, target, aspect, out, dst_roi: None }
        },
        (ScaleTarget::Exact(out), AspectMode::Preserve) => {
            let (rw, rh) = fit_within(input, out);
            ScalePlan { input, target, aspect, out: Size { w: rw, h: rh }, dst_roi: None }
        },
        (ScaleTarget::Exact(out), AspectMode::Pad { .. }) => {
            let (rw, rh) = fit_within(input, out);
            proof {
                lemma_fit_within_bounded(input, out);
            }
            let x = (out.w - rw) / 2;
            let y = (out.h - rh) / 2;
            ScalePlan { input, target, aspect, out, dst_roi: Some((x, y, rw, rh)) }
        },
    }
}

/// An input whose sides are already within the limit is left unchanged.
pub proof fn lemma_fit_preserve_small_unchanged(input: Size, max_long: u32)
    requires
        1 <= input.w <= max_long,
        1 <= input.h <= max_long,
    ensures
        spec_fit_preserve(input, max_long) == input,
{
    let w = input.w as int;
    let h = input.h as int;
    assert(round_ratio(w * 1, 1) == w) by {
        assert(w * 1 == w);
        assert((2 * w + 1) / 2 == w);
    }
    assert(round_ratio(h * 1, 1) == h) by {
        assert(h * 1 == h);
        assert((2 * h + 1) / 2 == h);
    }
}

/// An input longer than the limit is clamped exactly: the longest side of
/// the output is `max_long`.
pub proof fn lemma_fit_preserve_clamps_long_side(input: Size, max_long: u32)
    requires
        1 <= max_long,
        input.w > max_long || input.h > max_long,
    ensures
        input.w >= input.h ==> spec_fit_preserve(input, max_long).w == max_long,
        input.w < input.h ==> spec_fit_preserve(input, max_long).h == max_long,
{
    let long: int = if input.w >= input.h { input.w as int } else { input.h as int };
    let m = max_long as int;
    assert(2 * (long * m) + long == m * (2 * long) + long) by (nonlinear_arith);
    vstd::arithmetic::div_mod::lemma_fundamental_div_mod_converse_div(2 * (long * m) + long, 2 * long, m, long);
    assert(round_ratio(long * m, long) == m);
}

/// Rounding `x * n / d` lands within half a unit of the exact value:
/// `|2 * d * round - 2 * x * n| <= d`.
proof fn lemma_round_ratio_error(x: int, n: int, d: int)
    requires
        0 <= x,
        0 <= n,
        0 < d,
    ensures
        2 * d * round_ratio(x * n, d) <= 2 * (x * n) + d,
        2 * (x * n) - d < 2 * d * round_ratio(x * n, d),
{
    let p = 2 * (x * n) + d;
    let q = p / (2 * d);
    vstd::arithmetic::div_mod::lemma_fundamental_div_mod(p, 2 * d);
    vstd::arithmetic::div_mod::lemma_mod_pos_bound(p, 2 * d);
    assert(p == (2 * d) * q + p % (2 * d));
    assert(2 * d * q == (2 * d) * q) by (nonlinear_arith);
}

/// Scaling both sides of a picture by one factor keeps its aspect ratio up
/// to rounding: with `sw`, `sh` the rounded sides,
/// `2 * |sw * h - sh * w| <= w + h`.
pub proof fn lemma_scaling_keeps_aspect(w: int, h: int, n: int, d: int)
    requires
        0 <= w,
        0 <= h,
        0 <= n,
        0 < d,
    ensures
        ({
            let sw = round_ratio(w * n, d);
            let sh = round_ratio(h * n, d);
            &&& 2 * (sw * h - sh * w) <= w + h
            &&& 2 * (sh * w - sw * h) <= w + h
        }),
{
    let sw = round_ratio(w * n, d);
    let sh = round_ratio(h * n, d);
    lemma_round_ratio_error(w, n, d);
    lemma_round_ratio_error(h, n, d);
    let ew = 2 * d * sw - 2 * (w * n);
    let eh = 2 * d * sh - 2 * (h * n);
    assert(-d < ew <= d);
    assert(-d < eh <= d);
    assert(2 * d * (sw * h - sh * w) == ew * h - eh * w) by (nonlinear_arith)
        requires ew == 2 * d * sw - 2 * (w * n), eh == 2 * d * sh - 2 * (h * n);
    assert(ew * h - eh * w <= d * h + d * w) by (nonlinear_arith)
        requires -d < ew <= d, -d < eh <= d, 0 <= w, 0 <= h;
    assert(eh * w - ew * h <= d * h + d * w) by (nonlinear_arith)
        requires -d < ew <= d, -d < eh <= d, 0 <= w, 0 <= h;
    assert(2 * (sw * h - sh * w) <= w + h) by (nonlinear_arith)
        requires 2 * d * (sw * h - sh * w) <= d * h + d * w, 0 < d;
    assert(2 * d * (sh * w - sw * h) == eh * w - ew * h) by (nonlinear_arith)
        requires 2 * d * (sw * h - sh * w) == ew * h - eh * w;
    assert(2 * (sh * w - sw * h) <= w + h) by (nonlinear_arith)
        requires 2 * d * (sh * w - sw * h) <= d * h + d * w, 0 < d;
}

/// A padded plan places the picture centred and entirely inside its
/// canvas.
pub proof fn lemma_pad_roi_inside(input: Size, target: ScaleTarget, bg: [u8; 4])
    requires
        plan_defined(target, AspectMode::Pad { bg_rgba: bg }),
    ensures
        ({
            let plan = spec_plan(input, target, AspectMode::Pad { bg_rgba: bg });
            &&& plan.dst_roi is Some
            &&& ({
                let (x, y, rw, rh) = plan.dst_roi.unwrap();
                &&& 1 <= rw && 1 <= rh
                &&& x + rw <= plan.out.w
                &&& y + rh <= plan.out.h
                &&& x == (plan.out.w - rw) / 2
                &&& y == (plan.out.h - rh) / 2
            })
        }),
{
    match target {
        ScaleTarget::MaxLongSide(m) => lemma_fit_preserve_bounded(input, m),
        ScaleTarget::Exact(b) => lemma_fit_within_bounded(input, b),
    }
}

/// Token-saving presets: each clamps the longest side of a frame.
#[allow(non_camel_case_types)]
#[derive(Clone, Copy, Debug)]
pub enum TokenPreset {
    /// 1024 px to 640 px on the longest side, about 2.56x fewer tokens.
    P2_56_Long640,
    /// 1280 px to 640 px, 4x fewer tokens.
    P4_Long640,
    /// 1344 px to 512 px, about 6.9x fewer tokens.
    P6_9_Long512,
    /// 1920 px to 640 px, 9x fewer tokens.
    P9_Long640,
    /// 2048 px to 640 px, about 10.24x fewer tokens.
    P10_24_Long640,
}

/// The longest side a preset allows.
pub open spec fn preset_long_side(p: TokenPreset) -> u32 {
    match p {
        TokenPreset::P6_9_Long512 => 512,
        _ => 640,
    }
}

impl TokenPreset {
    /// The size constraint of the preset.
    pub fn to_target(self) -> (t: ScaleTarget)
        ensures
            t == ScaleTarget::MaxLongSide(preset_long_side(self)),
    {
        match self {
            TokenPreset::P6_9_Long512 => ScaleTarget::MaxLongSide(512),
            _ => ScaleTarget::MaxLongSide(640),
        }
    }
}

} // verus!
