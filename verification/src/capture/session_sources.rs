//! Capture sources for sessions: a stand-in for FFmpeg `x11grab` that
//! produces gradient frames.
use crate::error::CaptureError;
use crate::processing::Size;
use crate::rtsp::{lemma_pixel_before, BgraFrame};
use std::sync::Arc;
use vstd::prelude::*;

verus! {

/// A stand-in for FFmpeg `x11grab` capture: frames of a fixed size showing
/// a gradient.
#[derive(Debug)]
pub struct FFmpegCaptureSource {
    width: u32,
    height: u32,
}

/// Byte `ch` of pixel `(x, y)` of the gradient frame `w` by `h`: blue 128,
/// green rising down the frame, red rising across it, opaque.
pub open spec fn gradient_byte(w: int, h: int, x: int, y: int, ch: int) -> u8 {
    if ch == 0 {
        128
    } else if ch == 1 {
        (y * 255 / h) as u8
    } else if ch == 2 {
        (x * 255 / w) as u8
    } else {
        255
    }
}

impl FFmpegCaptureSource {
    /// The frame width and height.
    pub closed spec fn dims(&self) -> (u32, u32) {
        (self.width, self.height)
    }

    #[verifier::type_invariant]
    spec fn sized(&self) -> bool {
        &&& self.width == 1920
        &&& self.height == 1080
    }

    /// A source for the X display `_display`; frames are 1920 by 1080.
    pub fn new(_display: &str) -> (r: Result<Self, CaptureError>)
        ensures
            r matches Ok(s) && s.dims() == (1920u32, 1080u32),
    {
        Ok(FFmpegCaptureSource { width: 1920, height: 1080 })
    }

    /// The size of the frames.
    pub fn input_size(&self) -> (s: Size)
        ensures
            s.w == self.dims().0,
            s.h == self.dims().1,
    {
        Size { w: self.width, h: self.height }
    }

    /// A gradient frame, tightly packed, without a timestamp.
    pub fn capture_frame(&mut self) -> (f: BgraFrame)
        ensures
            final(self).dims() == old(self).dims(),
            f.width == old(self).dims().0,
            f.height == old(self).dims().1,
            f.stride == f.width * 4,
            f.pts_ns is None,
            f.data@.len() == f.width * f.height * 4,
            forall|x: int, y: int, ch: int|
                0 <= x < f.width && 0 <= y < f.height && 0 <= ch < 4 ==> f.data@[(y * f.width + x) * 4 + ch]
                    == #[trigger] gradient_byte(f.width as int, f.height as int, x, y, ch),
    {
        proof {
            use_type_invariant(&*self);
        }
        let width = self.width;
        let height = self.height;
        let mut data: Vec<u8> = Vec::with_capacity((width * height * 4) as usize);
        let mut y: u32 = 0;
        while y < height
            invariant
                width == 1920,
                height == 1080,
                y <= height,
                data@.len() == (y * width) * 4,
                forall|px: int, py: int, ch: int|
                    0 <= px < width && 0 <= py < y && 0 <= ch < 4 ==> data@[(py * width + px) * 4 + ch]
                        == #[trigger] gradient_byte(width as int, height as int, px, py, ch),
            decreases height - y,
        {
            let mut x: u32 = 0;
            while x < width
                invariant
                    width == 1920,
                    height == 1080,
                    y < height,
                    x <= width,
                    data@.len() == (y * width + x) * 4,
                    forall|px: int, py: int, ch: int|
                        0 <= px < width && 0 <= py <= y && (py < y || px < x) && 0 <= ch < 4 ==> data@[(py * width
                            + px) * 4 + ch] == #[trigger] gradient_byte(width as int, height as int, px, py, ch),
                decreases width - x,
            {
                let r = (x * 255 / width) as u8;
                let g = (y * 255 / height) as u8;
                let ghost before = data@;
                data.push(128u8);
                data.push(g);
                data.push(r);
                data.push(255u8);
                proof {
                    assert forall|px: int, py: int, ch: int|
                        0 <= px < width && 0 <= py <= y && (py < y || px < x + 1) && 0 <= ch < 4 implies data@[(py
                        * width + px) * 4 + ch] == #[trigger] gradient_byte(width as int, height as int, px, py, ch) by {
                        if py < y || px < x {
                            lemma_pixel_before(width as int, px, py, x as int, y as int, ch);
                        } else {
                            assert((py * width + px) * 4 + ch == before.len() + ch);
                        }
                    }
                }
                x += 1;
            }
            assert((y + 1) * width == y * width + width) by (nonlinear_arith);
            y += 1;
        }
        BgraFrame { data: Arc::new(data), width, height, stride: width as usize * 4, pts_ns: None }
    }
}

} // verus!
