//! Capture configuration: what to record, for how long, at what quality.
use crate::presets::TokenPreset;
use crate::text::owned;
use vstd::prelude::*;

verus! {

/// Options of a screen capture run.
#[derive(Debug, Clone)]
pub struct CaptureOptions {
    /// Output file path.
    pub output: String,
    /// Frames per second.
    pub fps: u32,
    /// Duration in seconds.
    pub seconds: u32,
    /// x264 constant rate factor (lower is better quality).
    pub crf: u8,
    /// Capture a window rather than the full screen.
    pub window: bool,
    /// Token-saving scaling preset, if any.
    pub scale_preset: Option<TokenPreset>,
    /// Gundam tiling mode.
    pub gundam_mode: bool,
}

/// Capture settings, checked by [`CaptureConfig::validate`].
pub struct CaptureConfig {
    /// Output file path.
    pub output: String,
    /// Frames per second (more than zero).
    pub fps: u32,
    /// Duration in seconds (more than zero).
    pub seconds: u32,
    /// x264 constant rate factor, 18 to 28.
    pub crf: u8,
    /// Capture a window rather than the full screen.
    pub window: bool,
    /// Token-saving scaling preset, if any.
    pub scale_preset: Option<TokenPreset>,
    /// Gundam tiling mode.
    pub gundam_mode: bool,
}

impl Default for CaptureConfig {
    /// `capture.mp4`, 30 frames per second for 10 seconds at CRF 23, full
    /// screen, no scaling, no tiling.
    fn default() -> (c: Self)
        ensures
            c.output@ == "capture.mp4"@,
            c.fps == 30,
            c.seconds == 10,
            c.crf == 23,
            !c.window,
            c.scale_preset is None,
            !c.gundam_mode,
    {
        CaptureConfig {
            output: owned("capture.mp4"),
            fps: 30,
            seconds: 10,
            crf: 23,
            window: false,
            scale_preset: None,
            gundam_mode: false,
        }
    }
}

/// Why a configuration is refused: zero frame rate, then zero duration,
/// then a CRF outside 18 to 28; `None` when it is accepted.
pub open spec fn config_problem(fps: u32, seconds: u32, crf: u8) -> Option<Seq<char>> {
    if fps == 0 {
        Some("FPS must be greater than 0"@)
    } else if seconds == 0 {
        Some("Duration must be greater than 0 seconds"@)
    } else if !(18 <= crf <= 28) {
        Some("CRF must be between 18 and 28"@)
    } else {
        None
    }
}

impl CaptureConfig {
    /// A configuration of the given settings.
    pub fn new(
        output: String,
        fps: u32,
        seconds: u32,
        crf: u8,
        window: bool,
        scale_preset: Option<TokenPreset>,
        gundam_mode: bool,
    ) -> (c: Self)
        ensures
            c == (CaptureConfig { output, fps, seconds, crf, window, scale_preset, gundam_mode }),
    {
        CaptureConfig { output, fps, seconds, crf, window, scale_preset, gundam_mode }
    }

    /// Checks the configuration: `Ok` when it is accepted, else the first
    /// problem found.
    pub fn validate(&self) -> (r: Result<(), String>)
        ensures
            match config_problem(self.fps, self.seconds, self.crf) {
                None => r is Ok,
                Some(msg) => r matches Err(e) && e@ == msg,
            },
    {
        if self.fps == 0 {
            return Err(owned("FPS must be greater than 0"));
        }
        if self.seconds == 0 {
            return Err(owned("Duration must be greater than 0 seconds"));
        }
        if !(18 <= self.crf && self.crf <= 28) {
            return Err(owned("CRF must be between 18 and 28"));
        }
        Ok(())
    }

    /// The capture options of this configuration.
    pub fn to_capture_options(&self) -> (o: CaptureOptions)
        ensures
            o.output@ == self.output@,
            o.fps == self.fps,
            o.seconds == self.seconds,
            o.crf == self.crf,
            o.window == self.window,
            o.scale_preset == self.scale_preset,
            o.gundam_mode == self.gundam_mode,
    {
        CaptureOptions {
            output: self.output.clone(),
            fps: self.fps,
            seconds: self.seconds,
            crf: self.crf,
            window: self.window,
            scale_preset: self.scale_preset,
            gundam_mode: self.gundam_mode,
        }
    }
}

} // verus!
