//! The project manifest: the saved form of a session, mirroring the
//! engine's tracks, clips and parameters in plain values.
//!
//! The host serialises this structure to and from disk; source
//! metadata on each clip is re-probed by the host on load and filled
//! in before the manifest is handed to the session.

use crate::clip::{Clip, MAX_FRAMES};
use crate::params::{gain_bits_valid, pan_bits_valid, CompressorParams, EqParams};
use crate::tempo::BEAT_SCALE_MICROS;
use vstd::prelude::*;

verus! {

/// The saved form of one clip.
#[derive(Clone, Debug, PartialEq)]
pub struct ClipState {
    /// Stable identifier of the source file.
    pub path: String,
    pub start_frames: u64,
    pub offset_frames: u64,
    pub duration_frames: u64,
    /// Source metadata, re-probed on load.
    pub source_duration_frames: u64,
    pub source_sample_rate: u32,
    pub source_channels: u32,
}

/// The saved form of one track.
#[derive(Clone, Debug, PartialEq)]
pub struct TrackState {
    pub name: String,
    pub color: String,
    pub gain_bits: u32,
    pub pan_bits: u32,
    pub muted: bool,
    pub solo: bool,
    pub clips: Vec<ClipState>,
    pub compressor: Option<CompressorParams>,
    /// When present, exactly four bands.
    pub eq: Option<Vec<EqParams>>,
}

/// The saved form of a whole project.
#[derive(Clone, Debug, PartialEq)]
pub struct ProjectManifest {
    pub version: u32,
    pub master_gain_bits: u32,
    pub bpm_millis: u32,
    pub tracks: Vec<TrackState>,
}

impl ClipState {
    /// The clip data is loadable: positive length within the frame
    /// limits.
    pub open spec fn valid(self) -> bool {
        &&& self.duration_frames > 0
        &&& self.start_frames + self.duration_frames < MAX_FRAMES
        &&& self.offset_frames + self.duration_frames < MAX_FRAMES
        &&& self.source_duration_frames < MAX_FRAMES
    }

    /// Whether a loaded clip carries exactly this saved data; the
    /// identifier is assigned anew on load.
    pub open spec fn matches_clip(self, c: Clip) -> bool {
        &&& c.path == self.path
        &&& c.start_frames == self.start_frames
        &&& c.offset_frames == self.offset_frames
        &&& c.duration_frames == self.duration_frames
        &&& c.source_duration_frames == self.source_duration_frames
        &&& c.source_sample_rate == self.source_sample_rate
        &&& c.source_channels == self.source_channels
    }
}

impl TrackState {
    /// The track data is loadable: parameters in range, a four-band
    /// chain when one is present, every clip loadable.
    pub open spec fn valid(self) -> bool {
        &&& gain_bits_valid(self.gain_bits)
        &&& pan_bits_valid(self.pan_bits)
        &&& match self.eq {
            Some(eq) => eq@.len() == 4,
            None => true,
        }
        &&& forall|j: int| 0 <= j < self.clips@.len() ==> (#[trigger] self.clips@[j]).valid()
    }
}

impl ProjectManifest {
    /// The manifest can be loaded into an engine whose time signature
    /// denominator is `denominator`: the tempo is positive and in
    /// range, the master gain is in range, and every track is
    /// loadable.
    pub open spec fn valid(self, denominator: u32) -> bool {
        &&& self.bpm_millis > 0
        &&& self.bpm_millis * denominator <= BEAT_SCALE_MICROS
        &&& gain_bits_valid(self.master_gain_bits)
        &&& forall|i: int| 0 <= i < self.tracks@.len() ==> (#[trigger] self.tracks@[i]).valid()
    }
}

/// Whether a loaded track carries exactly this saved data, with
/// defaults where the manifest left the DSP chain out.  Loaded tracks
/// start stopped; clip identifiers are assigned anew.
pub open spec fn loads_track(ts: TrackState, t: crate::track::Track) -> bool {
    &&& t.name == ts.name
    &&& t.color == ts.color
    &&& t.gain_bits == ts.gain_bits
    &&& t.pan_bits == ts.pan_bits
    &&& t.muted == ts.muted
    &&& t.solo == ts.solo
    &&& t.state == crate::track::TrackState::Stopped
    &&& t.eq@ == match ts.eq {
        Some(eq) => eq@,
        None => crate::params::spec_default_eq_chain(),
    }
    &&& t.compressor == match ts.compressor {
        Some(c) => c,
        None => crate::params::spec_default_compressor(),
    }
    &&& t.clips@.len() == ts.clips@.len()
    &&& forall|j: int|
        0 <= j < ts.clips@.len() ==> (#[trigger] ts.clips@[j]).matches_clip(t.clips@[j])
}

/// Whether this saved track is exactly the saved form of `t`.
pub open spec fn saves_track(t: crate::track::Track, ts: TrackState) -> bool {
    &&& ts.name == t.name
    &&& ts.color == t.color
    &&& ts.gain_bits == t.gain_bits
    &&& ts.pan_bits == t.pan_bits
    &&& ts.muted == t.muted
    &&& ts.solo == t.solo
    &&& ts.compressor == Some(t.compressor)
    &&& match ts.eq {
        Some(eq) => eq@ == t.eq@,
        None => false,
    }
    &&& ts.clips@.len() == t.clips@.len()
    &&& forall|j: int|
        0 <= j < t.clips@.len() ==> (#[trigger] ts.clips@[j]).matches_clip(t.clips@[j])
}

/// Items a load of the first `n` saved tracks creates: one identifier
/// per track plus one per clip.
pub open spec fn spec_load_items(tracks: Seq<TrackState>, n: int) -> int
    decreases n,
{
    if n <= 0 {
        0
    } else {
        spec_load_items(tracks, n - 1) + 1 + tracks[n - 1].clips@.len()
    }
}

/// Loading a prefix never creates more items than loading the whole
/// list.
pub proof fn lemma_load_items_monotone(tracks: Seq<TrackState>, n: int, m: int)
    requires
        0 <= n <= m,
    ensures
        spec_load_items(tracks, n) <= spec_load_items(tracks, m),
        spec_load_items(tracks, n) >= 0,
    decreases m,
{
    if m > n {
        lemma_load_items_monotone(tracks, n, m - 1);
    } else if n > 0 {
        lemma_load_items_monotone(tracks, 0, n - 1);
    }
}

} // verus!
