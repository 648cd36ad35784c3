//! Recording back ends: the FFmpeg command lines, the sizes frames are
//! recorded and streamed at, and the decisions of the capture loops
//! (stream, skip, wait, retry, give up).
use crate::config::config::CaptureOptions;
use crate::gundam::{choose_grid, spec_choose_grid};
use crate::presets::{build_plan, preset_long_side, spec_plan, AspectMode, TokenPreset};
use crate::rtsp::{ceil_sqrt, spec_ceil_sqrt};
use crate::text::{decimal, owned, push_decimal};
use vstd::prelude::*;

verus! {

/// The size frames are recorded at: the preset's scaled size, or the
/// captured size.
pub open spec fn spec_encoded_size(w: u32, h: u32, preset: Option<TokenPreset>) -> (u32, u32) {
    match preset {
        Some(p) => {
            let plan = spec_plan(
                crate::presets::Size { w, h },
                crate::presets::ScaleTarget::MaxLongSide(preset_long_side(p)),
                AspectMode::Preserve,
            );
            (plan.out.w, plan.out.h)
        },
        None => (w, h),
    }
}

/// The size frames of `w` by `h` pixels are recorded at.
pub fn encoded_size(w: u32, h: u32, preset: Option<TokenPreset>) -> (r: (u32, u32))
    ensures
        r == spec_encoded_size(w, h, preset),
{
    match preset {
        Some(p) => {
            let plan = build_plan(crate::presets::Size { w, h }, p.to_target(), AspectMode::Preserve);
            (plan.out.w, plan.out.h)
        },
        None => (w, h),
    }
}

/// The frame size announced to RTSP clients for a `w` by `h` screen: the
/// size of the Gundam composite of its tiles (at most nine, 640-pixel
/// cells), or the size its frames are sent at (the preset's scaled size,
/// or the screen's own).
pub open spec fn spec_rtsp_frame_size(w: u32, h: u32, gundam: bool, preset: Option<TokenPreset>) -> (u32, u32) {
    if gundam {
        let (cols, rows) = spec_choose_grid(w, h);
        let n = if cols * rows < 9 { cols * rows } else { 9 };
        let total = n + 1;
        let gc = spec_ceil_sqrt(total as int);
        let ch = ((total + gc - 1) / gc) * 640;
        ((gc * 640) as u32, (if ch < 640 { 640 } else { ch }) as u32)
    } else {
        spec_encoded_size(w, h, preset)
    }
}

/// The frame size announced to RTSP clients for a `w` by `h` screen.
pub fn rtsp_frame_size(w: u32, h: u32, gundam: bool, preset: Option<TokenPreset>) -> (r: (u32, u32))
    ensures
        r == spec_rtsp_frame_size(w, h, gundam, preset),
{
    if gundam {
        let (cols, rows) = choose_grid(w, h);
        let n: u32 = if cols * rows < 9 { cols * rows } else { 9 };
        let total = n + 1;
        let gc = ceil_sqrt(total);
        let ch = ((total + gc - 1) / gc) * 640;
        (gc * 640, if ch < 640 { 640 } else { ch })
    } else {
        encoded_size(w, h, preset)
    }
}

/// The decimal text of `n` as a new string.
pub fn decimal_string(n: u64) -> (s: String)
    ensures
        s@ == decimal(n as nat),
{
    let mut s = String::new();
    push_decimal(&mut s, n);
    assert(s@ =~= decimal(n as nat));
    s
}

/// The texts of a list of arguments.
pub open spec fn arg_texts(args: Seq<String>) -> Seq<Seq<char>> {
    args.map_values(|a: String| a@)
}

/// The FFmpeg arguments that record the X display `display` with
/// `x11grab` into an H.264 MP4 file.
pub open spec fn spec_x11grab_args(options: CaptureOptions, display: Seq<char>) -> Seq<Seq<char>> {
    seq![
        "-y"@,
        "-f"@,
        "x11grab"@,
        "-i"@,
        display + ".0"@,
        "-r"@,
        decimal(options.fps as nat),
        "-t"@,
        decimal(options.seconds as nat),
        "-an"@,
        "-c:v"@,
        "libx264"@,
        "-preset"@,
        "veryfast"@,
        "-tune"@,
        "zerolatency"@,
        "-crf"@,
        decimal(options.crf as nat),
        "-pix_fmt"@,
        "yuv420p"@,
        "-movflags"@,
        "+faststart"@,
        options.output@,
    ]
}

/// The FFmpeg arguments that encode raw BGRA frames of `w` by `h` pixels
/// read from standard input into an H.264 MP4 file.
pub open spec fn spec_rawvideo_args(options: CaptureOptions, w: u32, h: u32) -> Seq<Seq<char>> {
    seq![
        "-y"@,
        "-f"@,
        "rawvideo"@,
        "-pix_fmt"@,
        "bgra"@,
        "-s"@,
        decimal(w as nat) + "x"@ + decimal(h as nat),
        "-r"@,
        decimal(options.fps as nat),
        "-i"@,
        "-"@,
        "-an"@,
        "-c:v"@,
        "libx264"@,
        "-preset"@,
        "veryfast"@,
        "-tune"@,
        "zerolatency"@,
        "-crf"@,
        decimal(options.crf as nat),
        "-pix_fmt"@,
        "yuv420p"@,
        "-movflags"@,
        "+faststart"@,
        options.output@,
    ]
}

/// The FFmpeg arguments that record the X display `display`.
pub fn x11grab_args(options: &CaptureOptions, display: &str) -> (args: Vec<String>)
    ensures
        arg_texts(args@) == spec_x11grab_args(*options, display@),
{
    let mut args: Vec<String> = Vec::new();
    args.push(owned("-y"));
    args.push(owned("-f"));
    args.push(owned("x11grab"));
    args.push(owned("-i"));
    let mut d = owned(display);
    d.append(".0");
    args.push(d);
    args.push(owned("-r"));
    args.push(decimal_string(options.fps as u64));
    args.push(owned("-t"));
    args.push(decimal_string(options.seconds as u64));
    args.push(owned("-an"));
    args.push(owned("-c:v"));
    args.push(owned("libx264"));
    args.push(owned("-preset"));
    args.push(owned("veryfast"));
    args.push(owned("-tune"));
    args.push(owned("zerolatency"));
    args.push(owned("-crf"));
    args.push(decimal_string(options.crf as u64));
    args.push(owned("-pix_fmt"));
    args.push(owned("yuv420p"));
    args.push(owned("-movflags"));
    args.push(owned("+faststart"));
    args.push(options.output.clone());
    assert(arg_texts(args@) =~= spec_x11grab_args(*options, display@));
    args
}

/// The FFmpeg arguments that encode raw BGRA frames of `w` by `h` pixels
/// from standard input.
pub fn rawvideo_args(options: &CaptureOptions, w: u32, h: u32) -> (args: Vec<String>)
    ensures
        arg_texts(args@) == spec_rawvideo_args(*options, w, h),
{
    let mut args: Vec<String> = Vec::new();
    args.push(owned("-y"));
    args.push(owned("-f"));
    args.push(owned("rawvideo"));
    args.push(owned("-pix_fmt"));
    args.push(owned("bgra"));
    args.push(owned("-s"));
    let mut size = decimal_string(w as u64);
    size.append("x");
    push_decimal(&mut size, h as u64);
    args.push(size);
    args.push(owned("-r"));
    args.push(decimal_string(options.fps as u64));
    args.push(owned("-i"));
    args.push(owned("-"));
    args.push(owned("-an"));
    args.push(owned("-c:v"));
    args.push(owned("libx264"));
    args.push(owned("-preset"));
    args.push(owned("veryfast"));
    args.push(owned("-tune"));
    args.push(owned("zerolatency"));
    args.push(owned("-crf"));
    args.push(decimal_string(options.crf as u64));
    args.push(owned("-pix_fmt"));
    args.push(owned("yuv420p"));
    args.push(owned("-movflags"));
    args.push(owned("+faststart"));
    args.push(options.output.clone());
    assert(arg_texts(args@) =~= spec_rawvideo_args(*options, w, h));
    args
}

/// What the capture device gave for one frame request.
#[derive(Debug, Clone, Copy)]
pub enum CaptureEvent {
    /// A frame of `len` bytes.
    Frame { len: usize },
    /// No frame is ready yet.
    WouldBlock,
    /// Capture failed.
    Failed,
}

/// What a capture loop does next.
#[derive(Debug, Clone, Copy, PartialEq, Eq)]
pub enum CaptureStep {
    /// Process and send the frame.
    Stream,
    /// Drop the frame and ask again at once.
    Skip,
    /// Nap briefly, then ask again.
    Wait,
    /// Pause, then try again.
    Retry,
    /// Stop with an error.
    GiveUp,
}

/// Consecutive capture failures after which a tolerant loop gives up.
pub const MAX_CONSECUTIVE_FAILURES: u32 = 10;

/// The next failure count and step of a tolerant capture loop: a frame of
/// the expected size is streamed and one of another size skipped, a frame
/// or an empty poll clears the failure count, and a failure is retried
/// until it is the tenth in a row.
pub open spec fn spec_tolerant_step(failures: u32, event: CaptureEvent, expected_len: usize) -> (u32, CaptureStep) {
    match event {
        CaptureEvent::Frame { len } => (0, if len == expected_len { CaptureStep::Stream } else { CaptureStep::Skip }),
        CaptureEvent::WouldBlock => (0, CaptureStep::Wait),
        CaptureEvent::Failed => {
            let f = (failures + 1) as u32;
            (f, if f >= MAX_CONSECUTIVE_FAILURES { CaptureStep::GiveUp } else { CaptureStep::Retry })
        },
    }
}

/// One decision of a tolerant capture loop.
pub fn tolerant_capture_step(failures: u32, event: CaptureEvent, expected_len: usize) -> (r: (u32, CaptureStep))
    requires
        failures < MAX_CONSECUTIVE_FAILURES,
    ensures
        r == spec_tolerant_step(failures, event, expected_len),
{
    match event {
        CaptureEvent::Frame { len } => (0, if len == expected_len { CaptureStep::Stream } else { CaptureStep::Skip }),
        CaptureEvent::WouldBlock => (0, CaptureStep::Wait),
        CaptureEvent::Failed => {
            let f = failures + 1;
            (f, if f >= MAX_CONSECUTIVE_FAILURES { CaptureStep::GiveUp } else { CaptureStep::Retry })
        },
    }
}

/// One decision of a strict capture loop: only frames of the expected size
/// are streamed, an empty poll waits, anything else stops the loop.
pub open spec fn spec_strict_step(event: CaptureEvent, expected_len: usize) -> CaptureStep {
    match event {
        CaptureEvent::Frame { len } => if len == expected_len { CaptureStep::Stream } else { CaptureStep::GiveUp },
        CaptureEvent::WouldBlock => CaptureStep::Wait,
        CaptureEvent::Failed => CaptureStep::GiveUp,
    }
}

/// One decision of a strict capture loop.
pub fn strict_capture_step(event: CaptureEvent, expected_len: usize) -> (r: CaptureStep)
    ensures
        r == spec_strict_step(event, expected_len),
{
    match event {
        CaptureEvent::Frame { len } => if len == expected_len { CaptureStep::Stream } else { CaptureStep::GiveUp },
        CaptureEvent::WouldBlock => CaptureStep::Wait,
        CaptureEvent::Failed => CaptureStep::GiveUp,
    }
}

/// The failure count and step after `k` failures in a row, from none.
pub open spec fn after_failures(k: nat, expected_len: usize) -> (u32, CaptureStep)
    decreases k,
{
    if k == 0 {
        (0, CaptureStep::Retry)
    } else {
        spec_tolerant_step(after_failures((k - 1) as nat, expected_len).0, CaptureEvent::Failed, expected_len)
    }
}

/// A tolerant loop retries the first nine failures in a row and gives up
/// at the tenth; a frame or an empty poll starts the count again.
pub proof fn lemma_gives_up_at_tenth_failure(k: nat, expected_len: usize, event: CaptureEvent)
    requires
        1 <= k <= MAX_CONSECUTIVE_FAILURES,
    ensures
        after_failures(k, expected_len).0 == k,
        after_failures(k, expected_len).1 == if k < MAX_CONSECUTIVE_FAILURES {
            CaptureStep::Retry
        } else {
            CaptureStep::GiveUp
        },
        !(event is Failed) ==> spec_tolerant_step(after_failures(k, expected_len).0, event, expected_len).0 == 0,
    decreases k,
{
    reveal_with_fuel(after_failures, 2);
    if k > 1 {
        lemma_gives_up_at_tenth_failure((k - 1) as nat, expected_len, event);
    }
}

} // verus!
