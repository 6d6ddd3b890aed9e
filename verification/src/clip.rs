//! Timeline clips: a time-placed reference to a region of a source file.
//!
//! All times are frame counts at the engine sample rate.  The decode
//! pipeline that actually produces samples lives outside the model; a
//! clip here is the placement and trim data the editing commands and the
//! render scheduler work on.

use vstd::prelude::*;

verus! {

/// Identifier of a clip.  Drawn from the engine's monotonic counter and
/// never reused within a session.
#[derive(Clone, Copy, Debug, PartialEq, Eq, Hash, Structural)]
pub struct ClipId(pub u32);

/// Frame counts stay below this bound so that sums of any two of them
/// fit in a `u64`.
pub const MAX_FRAMES: u64 = 0x4000_0000_0000_0000;

/// A clip on a track's timeline.
#[derive(Clone, Debug, PartialEq)]
#[verifier::ext_equal]
pub struct Clip {
    pub id: ClipId,
    /// Stable identifier of the source file.
    pub path: String,
    /// Placement on the global timeline.
    pub start_frames: u64,
    /// Trim from the head of the source file.
    pub offset_frames: u64,
    /// Visible length on the timeline.
    pub duration_frames: u64,
    /// Immutable source metadata captured at import.
    pub source_duration_frames: u64,
    pub source_sample_rate: u32,
    pub source_channels: u32,
}

impl Clip {
    /// Frame at which the clip ends on the timeline.
    pub open spec fn spec_end_frames(self) -> int {
        self.start_frames + self.duration_frames
    }

    /// An equal copy of this clip.
    pub fn duplicate(&self) -> (copy: Clip)
        ensures
            copy == *self,
    {
        let copy = Clip {
            id: self.id,
            path: self.path.clone(),
            start_frames: self.start_frames,
            offset_frames: self.offset_frames,
            duration_frames: self.duration_frames,
            source_duration_frames: self.source_duration_frames,
            source_sample_rate: self.source_sample_rate,
            source_channels: self.source_channels,
        };
        proof {
            assert(copy =~= *self);
        }
        copy
    }

    /// A clip is well formed when it has positive length and its frame
    /// counts are small enough for the scheduler's sums.
    pub open spec fn wf(self) -> bool {
        &&& self.duration_frames > 0
        &&& self.start_frames + self.duration_frames < MAX_FRAMES
        &&& self.offset_frames + self.duration_frames < MAX_FRAMES
        &&& self.source_duration_frames < MAX_FRAMES
    }

    /// The trimmed region lies inside the source, with `slack` frames of
    /// tolerance at the tail (merges may extend a clip by up to the
    /// merge tolerance).
    pub open spec fn fits_source(self, slack: int) -> bool {
        self.offset_frames + self.duration_frames <= self.source_duration_frames + slack
    }

    /// Source position a decoder should resume from when the playhead
    /// jumps to `global_pos`: the clip's trim, pushed right by however
    /// far the playhead stands past the clip's start.
    pub open spec fn spec_seek_file_pos(self, global_pos: int) -> int {
        if global_pos <= self.start_frames {
            self.offset_frames as int
        } else {
            self.offset_frames + (global_pos - self.start_frames)
        }
    }

    /// Where to seek the clip's decoder for a playhead at `global_pos`,
    /// or `None` when the target lies at or past the end of the source
    /// and the decoder is left alone.
    pub fn seek_target(&self, global_pos: u64) -> (target: Option<u64>)
        requires
            self.wf(),
            global_pos < MAX_FRAMES,
        ensures
            match target {
                Some(p) => p == self.spec_seek_file_pos(global_pos as int)
                    && p < self.source_duration_frames,
                None => self.spec_seek_file_pos(global_pos as int)
                    >= self.source_duration_frames,
            },
    {
        let file_pos: u64 = if global_pos <= self.start_frames {
            self.offset_frames
        } else {
            self.offset_frames + (global_pos - self.start_frames)
        };
        if file_pos >= self.source_duration_frames {
            None
        } else {
            Some(file_pos)
        }
    }

    /// The left and right pieces of this clip cut at timeline frame
    /// `at`: the left keeps the identity and shrinks to the cut, the
    /// right starts at the cut with the trim pushed right accordingly.
    pub open spec fn spec_split(self, at: int, right_id: ClipId) -> (Clip, Clip) {
        (
            Clip { duration_frames: (at - self.start_frames) as u64, ..self },
            Clip {
                id: right_id,
                start_frames: at as u64,
                offset_frames: (self.offset_frames + (at - self.start_frames)) as u64,
                duration_frames: (self.spec_end_frames() - at) as u64,
                ..self
            },
        )
    }

    /// Split the clip at timeline frame `at`, strictly inside it.
    pub fn split(&self, at: u64, right_id: ClipId) -> (pieces: (Clip, Clip))
        requires
            self.wf(),
            self.start_frames < at < self.spec_end_frames(),
        ensures
            pieces == self.spec_split(at as int, right_id),
            pieces.0.wf(),
            pieces.1.wf(),
            self.fits_source(0) ==> pieces.0.fits_source(0) && pieces.1.fits_source(0),
    {
        let left = Clip {
            id: self.id,
            path: self.path.clone(),
            start_frames: self.start_frames,
            offset_frames: self.offset_frames,
            duration_frames: at - self.start_frames,
            source_duration_frames: self.source_duration_frames,
            source_sample_rate: self.source_sample_rate,
            source_channels: self.source_channels,
        };
        let right = Clip {
            id: right_id,
            path: self.path.clone(),
            start_frames: at,
            offset_frames: self.offset_frames + (at - self.start_frames),
            duration_frames: (self.start_frames + self.duration_frames) - at,
            source_duration_frames: self.source_duration_frames,
            source_sample_rate: self.source_sample_rate,
            source_channels: self.source_channels,
        };
        proof {
            assert((left, right) =~= self.spec_split(at as int, right_id));
        }
        (left, right)
    }

    /// Two clips may merge when the right one begins where the left one
    /// ends — on the timeline and in the source — within `tol` frames,
    /// they reference the same source file, and the joined clip stays
    /// within the frame-count limit.
    pub open spec fn spec_can_merge(left: Clip, right: Clip, tol: int) -> bool {
        &&& left.path@ == right.path@
        &&& abs_diff(right.start_frames as int, left.spec_end_frames()) <= tol
        &&& abs_diff(
            right.offset_frames as int,
            left.offset_frames + left.duration_frames,
        ) <= tol
        &&& left.spec_end_frames() + right.duration_frames < MAX_FRAMES
        &&& left.offset_frames + left.duration_frames + right.duration_frames < MAX_FRAMES
    }

    /// Check the merge preconditions against tolerance `tol`.
    pub fn can_merge(left: &Clip, right: &Clip, tol: u64) -> (ok: bool)
        requires
            left.wf(),
            right.wf(),
        ensures
            ok == Self::spec_can_merge(*left, *right, tol as int),
    {
        let ends: u64 = left.start_frames + left.duration_frames;
        let src_ends: u64 = left.offset_frames + left.duration_frames;
        let timeline_ok = if right.start_frames >= ends {
            right.start_frames - ends <= tol
        } else {
            ends - right.start_frames <= tol
        };
        let source_ok = if right.offset_frames >= src_ends {
            right.offset_frames - src_ends <= tol
        } else {
            src_ends - right.offset_frames <= tol
        };
        let bounded = ends + right.duration_frames < MAX_FRAMES
            && src_ends + right.duration_frames < MAX_FRAMES;
        timeline_ok && source_ok && bounded && left.path == right.path
    }

    /// The left clip extended over a merged-away right neighbour: its
    /// duration grows by the right clip's duration, everything else is
    /// kept.
    pub open spec fn spec_merged(left: Clip, right: Clip) -> Clip {
        Clip {
            duration_frames: (left.duration_frames + right.duration_frames) as u64,
            ..left
        }
    }

    /// Merge a right neighbour into this clip.
    pub fn merged_with(&self, right: &Clip) -> (merged: Clip)
        requires
            self.wf(),
            right.wf(),
            self.spec_end_frames() + right.duration_frames < MAX_FRAMES,
            self.offset_frames + self.duration_frames + right.duration_frames < MAX_FRAMES,
        ensures
            merged == Self::spec_merged(*self, *right),
            merged.wf(),
    {
        Clip {
            id: self.id,
            path: self.path.clone(),
            start_frames: self.start_frames,
            offset_frames: self.offset_frames,
            duration_frames: self.duration_frames + right.duration_frames,
            source_duration_frames: self.source_duration_frames,
            source_sample_rate: self.source_sample_rate,
            source_channels: self.source_channels,
        }
    }
}

/// Absolute difference of two mathematical integers.
pub open spec fn abs_diff(a: int, b: int) -> int {
    if a >= b {
        a - b
    } else {
        b - a
    }
}

} // verus!
