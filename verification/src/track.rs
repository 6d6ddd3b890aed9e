//! Tracks: an ordered list of clips with shared gain, pan, mute and
//! solo, an EQ chain of four bands, and a compressor.
//!
//! The track also carries the per-block scheduling that the render path
//! needs: which clips intersect a block, at which destination offset
//! they mix in, and where boundary fades apply.

use crate::clip::{Clip, MAX_FRAMES};
use crate::params::{
    gain_above_floor, gain_bits_valid, pan_bits_valid, spec_default_compressor,
    spec_default_eq_chain, default_compressor, default_eq_chain, BITS_ONE, BITS_ZERO,
    CompressorParams, EqParams,
};
use vstd::prelude::*;

verus! {

/// Identifier of a track.  Drawn from the engine's monotonic counter
/// and never reused within a session.
#[derive(Clone, Copy, Debug, PartialEq, Eq, Hash, Structural)]
pub struct TrackId(pub u32);

/// Transport state a track mirrors to its decoders.
#[derive(Clone, Copy, Debug, PartialEq, Eq, Structural)]
pub enum TrackState {
    Stopped,
    Playing,
    Paused,
}

/// One scheduled contribution of a clip to a render block.
#[derive(Clone, Copy, Debug, PartialEq, Eq, Structural)]
pub struct ClipTask {
    /// Index of the clip in the track's clip list.
    pub clip_index: usize,
    /// Frames into the block at which the clip's samples land.
    pub dst_offset_frames: u64,
    /// Frames to pull from the clip's queue, to the end of the block.
    pub frames: u64,
    /// The block straddles the clip's start: ramp the first samples in.
    pub fade_in: bool,
    /// The block straddles the clip's end: ramp the last samples out.
    pub fade_out: bool,
    /// Whether the samples are mixed in or only drained to keep the
    /// clip's queue in step with the timeline.
    pub mix: bool,
}

/// Whether a clip's timeline interval meets the block `[t0, t1)`.
pub open spec fn clip_overlaps(c: Clip, t0: int, t1: int) -> bool {
    c.start_frames < t1 && c.spec_end_frames() > t0
}

/// The task a clip at index `i` contributes to the block starting at
/// `t0` of `frames` frames.
pub open spec fn spec_clip_task(c: Clip, i: int, t0: int, frames: int, mix: bool) -> ClipTask {
    let dst = if c.start_frames > t0 {
        c.start_frames - t0
    } else {
        0
    };
    ClipTask {
        clip_index: i as usize,
        dst_offset_frames: dst as u64,
        frames: (frames - dst) as u64,
        fade_in: t0 < c.start_frames <= t0 + frames,
        fade_out: t0 < c.spec_end_frames() <= t0 + frames,
        mix,
    }
}

/// The tasks contributed by the first `n` clips of the list, in list
/// order.
pub open spec fn spec_plan_prefix(
    clips: Seq<Clip>,
    n: int,
    t0: int,
    frames: int,
    mix: bool,
) -> Seq<ClipTask>
    decreases n,
{
    if n <= 0 {
        Seq::empty()
    } else {
        let rest = spec_plan_prefix(clips, n - 1, t0, frames, mix);
        if clip_overlaps(clips[n - 1], t0, t0 + frames) {
            rest.push(spec_clip_task(clips[n - 1], n - 1, t0, frames, mix))
        } else {
            rest
        }
    }
}

/// The full block plan of a clip list: one task per clip intersecting
/// the block, in list order.
pub open spec fn spec_block_plan(clips: Seq<Clip>, t0: int, frames: int, mix: bool) -> Seq<
    ClipTask,
> {
    spec_plan_prefix(clips, clips.len() as int, t0, frames, mix)
}

/// A block plan holds exactly the clips that intersect the block:
/// every task belongs to an intersecting clip among the first `n` and
/// carries that clip's schedule, and every intersecting clip appears
/// as some task — overlapping clips are all summed, none replaces
/// another.
pub proof fn lemma_block_plan_membership(clips: Seq<Clip>, n: int, t0: int, frames: int, mix: bool)
    requires
        0 <= n <= clips.len(),
        n <= usize::MAX as int,
    ensures
        ({
            let plan = spec_plan_prefix(clips, n, t0, frames, mix);
            &&& forall|j: int|
                0 <= j < plan.len() ==> {
                    let i = (#[trigger] plan[j]).clip_index as int;
                    &&& 0 <= i < n
                    &&& clip_overlaps(clips[i], t0, t0 + frames)
                    &&& plan[j] == spec_clip_task(clips[i], i, t0, frames, mix)
                }
            &&& forall|i: int|
                0 <= i < n && clip_overlaps(#[trigger] clips[i], t0, t0 + frames) ==> exists|j: int|
                    0 <= j < plan.len() && (#[trigger] plan[j]).clip_index as int == i
        }),
    decreases n,
{
    if n > 0 {
        lemma_block_plan_membership(clips, n - 1, t0, frames, mix);
        let rest = spec_plan_prefix(clips, n - 1, t0, frames, mix);
        let plan = spec_plan_prefix(clips, n, t0, frames, mix);
        if clip_overlaps(clips[n - 1], t0, t0 + frames) {
            assert(plan == rest.push(spec_clip_task(clips[n - 1], n - 1, t0, frames, mix)));
            assert(plan[plan.len() - 1].clip_index as int == n - 1);
            assert forall|i: int|
                0 <= i < n && clip_overlaps(#[trigger] clips[i], t0, t0 + frames) implies exists|
                j: int,
            |
                0 <= j < plan.len() && (#[trigger] plan[j]).clip_index as int == i by {
                if i < n - 1 {
                    let j = choose|j: int|
                        0 <= j < rest.len() && (#[trigger] rest[j]).clip_index as int == i;
                    assert(plan[j].clip_index as int == i);
                } else {
                    assert(plan[plan.len() - 1].clip_index as int == i);
                }
            }
        } else {
            assert(plan == rest);
            assert forall|i: int|
                0 <= i < n && clip_overlaps(#[trigger] clips[i], t0, t0 + frames) implies exists|
                j: int,
            |
                0 <= j < plan.len() && (#[trigger] plan[j]).clip_index as int == i by {
                let j = choose|j: int|
                    0 <= j < rest.len() && (#[trigger] rest[j]).clip_index as int == i;
                assert(plan[j].clip_index as int == i);
            }
        }
    }
}

/// The two tracks agree on everything but their clip list.
pub open spec fn same_but_clips(tpre: Track, tpost: Track) -> bool {
    &&& tpost.id == tpre.id
    &&& tpost.name == tpre.name
    &&& tpost.color == tpre.color
    &&& tpost.gain_bits == tpre.gain_bits
    &&& tpost.pan_bits == tpre.pan_bits
    &&& tpost.muted == tpre.muted
    &&& tpost.solo == tpre.solo
    &&& tpost.state == tpre.state
    &&& tpost.eq == tpre.eq
    &&& tpost.compressor == tpre.compressor
}

/// A single audio track in the engine.
#[derive(Clone, Debug)]
#[verifier::ext_equal]
pub struct Track {
    pub id: TrackId,
    pub name: String,
    /// Purely descriptive display colour.
    pub color: String,
    /// Track gain in [0, 2], as a single-precision bit pattern.
    pub gain_bits: u32,
    /// Track pan in [-1, 1], as a single-precision bit pattern.
    pub pan_bits: u32,
    pub muted: bool,
    pub solo: bool,
    pub state: TrackState,
    pub clips: Vec<Clip>,
    /// Exactly four EQ bands.
    pub eq: Vec<EqParams>,
    pub compressor: CompressorParams,
}

impl Track {
    /// A track is well formed when its parameters are in range, it has
    /// exactly four EQ bands, and every clip is well formed.
    pub open spec fn wf(self) -> bool {
        &&& gain_bits_valid(self.gain_bits)
        &&& pan_bits_valid(self.pan_bits)
        &&& self.eq.len() == 4
        &&& forall|i: int| 0 <= i < self.clips.len() ==> (#[trigger] self.clips[i]).wf()
    }

    /// A fresh track: unity gain, centre pan, neither muted nor soloed,
    /// stopped, no clips, the default EQ chain and compressor.
    pub fn new(id: TrackId, name: String) -> (track: Track)
        ensures
            track.id == id,
            track.name == name,
            track.color@ == Seq::<char>::empty(),
            track.gain_bits == BITS_ONE,
            track.pan_bits == BITS_ZERO,
            !track.muted,
            !track.solo,
            track.state == TrackState::Stopped,
            track.clips@.len() == 0,
            track.eq@ == spec_default_eq_chain(),
            track.compressor == spec_default_compressor(),
            track.wf(),
    {
        Track {
            id,
            name,
            color: String::new(),
            gain_bits: BITS_ONE,
            pan_bits: BITS_ZERO,
            muted: false,
            solo: false,
            state: TrackState::Stopped,
            clips: Vec::new(),
            eq: default_eq_chain(),
            compressor: default_compressor(),
        }
    }

    /// Whether the track is in the playing transport state.
    pub fn is_playing(&self) -> (playing: bool)
        ensures
            playing == (self.state == TrackState::Playing),
    {
        matches!(self.state, TrackState::Playing)
    }

    /// Set the transport state.  The caller mirrors the new state to
    /// every owned decoder.
    pub fn set_state(&mut self, st: TrackState)
        ensures
            *final(self) == (Track { state: st, ..*old(self) }),
    {
        self.state = st;
    }

    /// The audibility rule: under any solo, only soloed tracks sound;
    /// otherwise unmuted tracks sound — and in both cases only with a
    /// gain above the audibility floor.
    pub open spec fn spec_audible(self, any_solo: bool) -> bool {
        (if any_solo {
            self.solo
        } else {
            !self.muted
        }) && gain_above_floor(self.gain_bits)
    }

    /// Decide audibility of this track given whether any track of the
    /// engine is soloed.
    pub fn is_audible(&self, any_solo: bool) -> (audible: bool)
        ensures
            audible == self.spec_audible(any_solo),
    {
        let wanted = if any_solo {
            self.solo
        } else {
            !self.muted
        };
        wanted && self.gain_bits > crate::params::GAIN_FLOOR_BITS
    }

    /// Where each clip's decoder should resume from for a playhead at
    /// `global_pos`: one entry per clip, `None` where the target lies
    /// past the clip's source.
    pub fn seek_targets(&self, global_pos: u64) -> (targets: Vec<Option<u64>>)
        requires
            self.wf(),
            global_pos < MAX_FRAMES,
        ensures
            targets@.len() == self.clips@.len(),
            forall|i: int|
                0 <= i < targets@.len() ==> match #[trigger] targets@[i] {
                    Some(p) => p == self.clips@[i].spec_seek_file_pos(global_pos as int)
                        && p < self.clips@[i].source_duration_frames,
                    None => self.clips@[i].spec_seek_file_pos(global_pos as int)
                        >= self.clips@[i].source_duration_frames,
                },
    {
        let mut targets: Vec<Option<u64>> = Vec::new();
        let mut i: usize = 0;
        while i < self.clips.len()
            invariant
                self.wf(),
                global_pos < MAX_FRAMES,
                i <= self.clips@.len(),
                targets@.len() == i,
                forall|j: int|
                    0 <= j < i ==> match #[trigger] targets@[j] {
                        Some(p) => p == self.clips@[j].spec_seek_file_pos(global_pos as int)
                            && p < self.clips@[j].source_duration_frames,
                        None => self.clips@[j].spec_seek_file_pos(global_pos as int)
                            >= self.clips@[j].source_duration_frames,
                    },
            decreases self.clips@.len() - i,
        {
            targets.push(self.clips[i].seek_target(global_pos));
            i = i + 1;
        }
        targets
    }

    /// Schedule this track's clips for the block `[t0, t0 + frames)`.
    /// With `mix` false (the track is inaudible) the tasks only drain
    /// the clips' queues.
    pub fn plan_block(&self, t0: u64, frames: u64, mix: bool) -> (tasks: Vec<ClipTask>)
        requires
            self.wf(),
            t0 < MAX_FRAMES,
            0 < frames < MAX_FRAMES,
        ensures
            tasks@ == spec_block_plan(self.clips@, t0 as int, frames as int, mix),
    {
        let t1: u64 = t0 + frames;
        let mut tasks: Vec<ClipTask> = Vec::new();
        let mut i: usize = 0;
        while i < self.clips.len()
            invariant
                self.wf(),
                t0 < MAX_FRAMES,
                0 < frames < MAX_FRAMES,
                t1 == t0 + frames,
                i <= self.clips@.len(),
                tasks@ == spec_plan_prefix(self.clips@, i as int, t0 as int, frames as int, mix),
            decreases self.clips@.len() - i,
        {
            let c = &self.clips[i];
            let c_end: u64 = c.start_frames + c.duration_frames;
            if c.start_frames < t1 && c_end > t0 {
                let dst: u64 = if c.start_frames > t0 {
                    c.start_frames - t0
                } else {
                    0
                };
                tasks.push(
                    ClipTask {
                        clip_index: i,
                        dst_offset_frames: dst,
                        frames: frames - dst,
                        fade_in: t0 < c.start_frames && c.start_frames <= t1,
                        fade_out: t0 < c_end && c_end <= t1,
                        mix,
                    },
                );
            }
            i = i + 1;
        }
        tasks
    }
}

} // verus!
