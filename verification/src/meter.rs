//! Level metering: the snapshot block shared between the audio thread
//! and the display, and the integer bookkeeping of the peak-hold.
//!
//! The audio thread computes peaks and RMS in its own arithmetic and
//! publishes them here as single-precision bit patterns; the display
//! only ever reads whole snapshots.

use vstd::prelude::*;

verus! {

/// One track's meter snapshot: instantaneous peak, held peak and RMS
/// per channel, each a single-precision bit pattern.
#[derive(Clone, Copy, Debug, PartialEq, Eq, Structural)]
pub struct TrackMeters {
    pub peak_l: u32,
    pub peak_r: u32,
    pub hold_l: u32,
    pub hold_r: u32,
    pub rms_l: u32,
    pub rms_r: u32,
}

impl TrackMeters {
    /// A dark meter: every reading zero.
    pub fn new() -> (meters: TrackMeters)
        ensures
            meters.peak_l == 0,
            meters.peak_r == 0,
            meters.hold_l == 0,
            meters.hold_r == 0,
            meters.rms_l == 0,
            meters.rms_r == 0,
    {
        TrackMeters { peak_l: 0, peak_r: 0, hold_l: 0, hold_r: 0, rms_l: 0, rms_r: 0 }
    }
}

/// Frames a freshly set peak is held before it starts to decay: half
/// a second at the given sample rate.
pub fn hold_duration_frames(sample_rate: u32) -> (frames: u64)
    ensures
        frames == sample_rate as int / 2,
{
    sample_rate as u64 / 2
}

/// Advance the hold countdown over one block without wrapping below
/// zero.
pub fn hold_countdown(hold_frames: u64, block_frames: u64) -> (left: u64)
    ensures
        left == if hold_frames >= block_frames {
            hold_frames - block_frames
        } else {
            0
        },
{
    if hold_frames >= block_frames {
        hold_frames - block_frames
    } else {
        0
    }
}

} // verus!
