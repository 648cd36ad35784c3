//! Estimates of what the capture pipeline saves by feeding BGRA frames
//! directly, pooling buffers and using a memory-mapped ring buffer.
use crate::text::{decimal, owned, push_decimal, push_tenths, tenths};
use vstd::prelude::*;

verus! {

/// A capture of `width` by `height` pixels at `fps` frames per second for
/// `duration_seconds` seconds.
pub struct PerformanceAnalysis {
    pub width: u32,
    pub height: u32,
    pub fps: u32,
    pub duration_seconds: u32,
}

/// Pixels captured in all: width, height, rate and duration multiplied.
pub open spec fn spec_total_pixels(a: PerformanceAnalysis) -> int {
    a.width * a.height * a.fps * a.duration_seconds
}

/// The running products of the pixel count fit in 64 bits.
pub open spec fn pixels_fit(a: PerformanceAnalysis) -> bool {
    &&& a.width * a.height * a.fps <= u64::MAX
    &&& spec_total_pixels(a) <= u64::MAX
}

/// The figures of an analysis fit their machine types: at most ten
/// operations per pixel in 64 bits, one BGRA frame in a `usize` and the
/// frame count in 32 bits.
pub open spec fn analysis_fits(a: PerformanceAnalysis) -> bool {
    &&& pixels_fit(a)
    &&& spec_total_pixels(a) * 10 <= u64::MAX
    &&& a.width * a.height * 4 <= usize::MAX
    &&& a.fps * a.duration_seconds <= u32::MAX
}

/// The text of the performance report of `a`.  The estimated CPU reduction
/// is 60%, the middle of the 50-70% that feeding BGRA directly saves per
/// frame.
pub open spec fn spec_report(a: PerformanceAnalysis) -> Seq<char> {
    "Zero-Copy Performance Analysis\n═══════════════════════════════════════════════\n\nConfiguration: "@
        + decimal(a.width as nat)
        + "x"@
        + decimal(a.height as nat)
        + " @ "@
        + decimal(a.fps as nat)
        + "fps for "@
        + decimal(a.duration_seconds as nat)
        + "s\nTotal Frames: "@
        + decimal((a.fps * a.duration_seconds) as nat)
        + "\nTotal Pixels: "@
        + decimal(spec_total_pixels(a) as nat)
        + "\nMemory per Frame: "@
        + decimal((a.width * a.height * 4) as nat)
        + " bytes ("@
        + tenths((a.width * a.height * 4) as nat, 100_000)
        + " MB)\nTotal Memory Transfer: "@
        + tenths((spec_total_pixels(a) * 4) as nat, 100_000_000)
        + " GB\n\nPerformance Improvements:\n─────────────────────────────\n\n1. BGRA Direct Feed:\n   • Operations Saved: "@
        + decimal((spec_total_pixels(a) * 10) as nat)
        + " CPU operations\n   • CPU Reduction: ~"@
        + "60.0"@
        + "% (estimated)\n   • Memory Copy Elimination: "@
        + tenths((spec_total_pixels(a) * 3) as nat, 100_000_000)
        + " GB of pixel copying\n\n2. Buffer Pooling:\n   • Allocations Saved: "@
        + decimal((a.fps * a.duration_seconds) as nat)
        + " buffer allocations/deallocations\n   • Memory Pressure Reduction: "@
        + decimal((a.width * a.height * 4) as nat)
        + " bytes per frame\n   • GC Pressure: Significantly reduced\n\n3. Memory-Mapped Ring Buffer:\n   • I/O Efficiency: Improved via memory mapping\n   • Thread Synchronization: Lock-free atomic operations\n   • Memory Access Pattern: Sequential, cache-friendly\n\n💡 Key Benefits:\n────────────────\n• Real-time Performance: Eliminated frame drops during high CPU load\n• Memory Efficiency: Reduced peak memory usage by ~33%\n• CPU Efficiency: ~50-70% reduction in per-frame processing\n• Scalability: Better handling of high-resolution captures\n• Latency: Reduced frame processing latency\n\nNote: Actual performance gains depend on hardware, resolution, and system load.\nThese are theoretical estimates based on eliminated operations."@
}

impl PerformanceAnalysis {
    /// An analysis of the given capture.
    pub fn new(width: u32, height: u32, fps: u32, duration_seconds: u32) -> (a: Self)
        ensures
            a == (PerformanceAnalysis { width, height, fps, duration_seconds }),
    {
        PerformanceAnalysis { width, height, fps, duration_seconds }
    }

    /// Pixels captured in all.
    pub fn total_pixels(&self) -> (n: u64)
        requires
            pixels_fit(*self),
        ensures
            n == spec_total_pixels(*self),
    {
        proof {
            lemma_product_bounds(*self);
        }
        self.width as u64 * self.height as u64 * self.fps as u64 * self.duration_seconds as u64
    }

    /// Bytes of one BGRA frame.
    pub fn memory_per_frame(&self) -> (n: usize)
        requires
            self.width * self.height * 4 <= usize::MAX,
        ensures
            n == self.width * self.height * 4,
    {
        proof {
            assert(self.width * self.height <= self.width * self.height * 4) by (nonlinear_arith)
                requires self.width >= 0, self.height >= 0;
        }
        (self.width as usize) * (self.height as usize) * 4
    }

    /// Bytes of all BGRA frames.
    pub fn total_memory_transfer(&self) -> (n: u64)
        requires
            pixels_fit(*self),
            spec_total_pixels(*self) * 4 <= u64::MAX,
        ensures
            n == spec_total_pixels(*self) * 4,
    {
        self.total_pixels() * 4
    }

    /// Operations saved by not converting pixel formats: an estimated ten
    /// per pixel.
    pub fn conversion_operations_saved(&self) -> (n: u64)
        requires
            pixels_fit(*self),
            spec_total_pixels(*self) * 10 <= u64::MAX,
        ensures
            n == spec_total_pixels(*self) * 10,
    {
        self.total_pixels() * 10
    }

    /// Buffer allocations saved by pooling: one per frame.
    pub fn allocations_saved(&self) -> (n: u64)
        ensures
            n == self.fps * self.duration_seconds,
    {
        proof {
            assert(self.fps * self.duration_seconds <= u32::MAX * u32::MAX) by (nonlinear_arith)
                requires self.fps <= u32::MAX, self.duration_seconds <= u32::MAX;
        }
        self.fps as u64 * self.duration_seconds as u64
    }

    /// The performance report: the capture, its totals and the estimated
    /// savings, with megabytes and gigabytes to one decimal place.
    pub fn generate_report(&self) -> (s: String)
        requires
            analysis_fits(*self),
        ensures
            s@ == spec_report(*self),
    {
        let total_pixels = self.total_pixels();
        let memory_per_frame = self.memory_per_frame();
        let total_memory = self.total_memory_transfer();
        let operations_saved = self.conversion_operations_saved();
        let allocations_saved = self.allocations_saved();
        let mut s = owned("Zero-Copy Performance Analysis\n═══════════════════════════════════════════════\n\nConfiguration: ");
        push_decimal(&mut s, self.width as u64);
        s.append("x");
        push_decimal(&mut s, self.height as u64);
        s.append(" @ ");
        push_decimal(&mut s, self.fps as u64);
        s.append("fps for ");
        push_decimal(&mut s, self.duration_seconds as u64);
        s.append("s\nTotal Frames: ");
        push_decimal(&mut s, (self.fps * self.duration_seconds) as u64);
        s.append("\nTotal Pixels: ");
        push_decimal(&mut s, total_pixels);
        s.append("\nMemory per Frame: ");
        push_decimal(&mut s, memory_per_frame as u64);
        s.append(" bytes (");
        push_tenths(&mut s, memory_per_frame as u64, 100_000);
        s.append(" MB)\nTotal Memory Transfer: ");
        push_tenths(&mut s, total_memory, 100_000_000);
        s.append(" GB\n\nPerformance Improvements:\n─────────────────────────────\n\n1. BGRA Direct Feed:\n   • Operations Saved: ");
        push_decimal(&mut s, operations_saved);
        s.append(" CPU operations\n   • CPU Reduction: ~");
        s.append("60.0");
        s.append("% (estimated)\n   • Memory Copy Elimination: ");
        push_tenths(&mut s, total_pixels * 3, 100_000_000);
        s.append(" GB of pixel copying\n\n2. Buffer Pooling:\n   • Allocations Saved: ");
        push_decimal(&mut s, allocations_saved);
        s.append(" buffer allocations/deallocations\n   • Memory Pressure Reduction: ");
        push_decimal(&mut s, memory_per_frame as u64);
        s.append(" bytes per frame\n   • GC Pressure: Significantly reduced\n\n3. Memory-Mapped Ring Buffer:\n   • I/O Efficiency: Improved via memory mapping\n   • Thread Synchronization: Lock-free atomic operations\n   • Memory Access Pattern: Sequential, cache-friendly\n\n💡 Key Benefits:\n────────────────\n• Real-time Performance: Eliminated frame drops during high CPU load\n• Memory Efficiency: Reduced peak memory usage by ~33%\n• CPU Efficiency: ~50-70% reduction in per-frame processing\n• Scalability: Better handling of high-resolution captures\n• Latency: Reduced frame processing latency\n\nNote: Actual performance gains depend on hardware, resolution, and system load.\nThese are theoretical estimates based on eliminated operations.");
        s
    }
}

/// The first partial product of the pixel count fits in 64 bits.
proof fn lemma_product_bounds(a: PerformanceAnalysis)
    ensures
        0 <= a.width * a.height <= 0xFFFF_FFFE_0000_0001,
{
    assert(0 <= a.width * a.height <= 0xFFFF_FFFE_0000_0001) by (nonlinear_arith)
        requires a.width <= 0xFFFF_FFFFu32, a.height <= 0xFFFF_FFFFu32, 0 <= a.width, 0 <= a.height;
}

} // verus!
