//! The engine: owns the tracks, the transport and the tempo map, hands
//! out fresh identifiers, and schedules each render block.
//!
//! Rendering in the model is the sample-accurate scheduling decision:
//! which tracks sound, which clips contribute where in the block, and
//! how the playhead advances.  The host's audio callback executes the
//! returned plan against the real sample queues.

use crate::clip::{Clip, ClipId, MAX_FRAMES};
use crate::params::{gain_bits_valid, master_gain_applies, BITS_ONE};
use crate::tempo::{TempoMap, BEAT_SCALE_MICROS};
use crate::track::{same_but_clips, spec_block_plan, ClipTask, Track, TrackId, TrackState};
use vstd::prelude::*;

verus! {

/// The global playhead and play state.
#[derive(Clone, Copy, Debug, PartialEq, Eq, Structural)]
pub struct Transport {
    /// Playhead position in frames at the engine sample rate.
    pub position_frames: u64,
    pub playing: bool,
    pub tempo: TempoMap,
}

/// The scheduled contribution of one track to a render block.
#[derive(Clone, Debug)]
pub struct TrackRender {
    /// Index of the track in the engine's track list.
    pub track_index: usize,
    /// Whether the track sounds under the audibility rule; an inaudible
    /// track's tasks only drain its clips' queues.
    pub audible: bool,
    pub tasks: Vec<ClipTask>,
}

/// Everything the audio callback needs to produce one block.
#[derive(Clone, Debug)]
pub struct RenderPlan {
    /// Frames in the block.
    pub frames: u64,
    /// Whether any track was soloed when the block was scheduled.
    pub any_solo: bool,
    /// Master gain as a single-precision bit pattern.
    pub master_gain_bits: u32,
    /// Whether the master gain lies outside the unity dead band and is
    /// applied to the mix bus.
    pub apply_master: bool,
    /// One entry per track in the playing state, in track order.
    pub track_renders: Vec<TrackRender>,
}

/// Whether any of the tracks is soloed.
pub open spec fn spec_any_solo(tracks: Seq<Track>) -> bool {
    exists|i: int| 0 <= i < tracks.len() && (#[trigger] tracks[i]).solo
}

/// Indices of the tracks in the playing state among the first `n`, in
/// order.
pub open spec fn spec_playing_indices(tracks: Seq<Track>, n: int) -> Seq<int>
    decreases n,
{
    if n <= 0 {
        Seq::empty()
    } else {
        let rest = spec_playing_indices(tracks, n - 1);
        if tracks[n - 1].state == TrackState::Playing {
            rest.push(n - 1)
        } else {
            rest
        }
    }
}

/// The realtime mix engine.
#[derive(Clone, Debug)]
#[verifier::ext_equal]
pub struct Engine {
    pub sample_rate: u32,
    /// Channel count of the mix bus; always two.
    pub channels: u32,
    pub transport: Transport,
    /// Master gain in [0, 2], as a single-precision bit pattern.
    pub master_gain_bits: u32,
    /// Monotonic counter from which track and clip identifiers are
    /// drawn.  Never decreases, so identifiers are never reused.
    pub next_id: u32,
    pub tracks: Vec<Track>,
}

impl Engine {
    /// Whether `id` is the identifier of a track or clip currently in
    /// the engine.
    pub open spec fn contains_id(self, id: u32) -> bool {
        ||| exists|i: int| 0 <= i < self.tracks.len() && (#[trigger] self.tracks[i]).id.0 == id
        ||| exists|i: int, j: int|
            0 <= i < self.tracks.len() && 0 <= j < self.tracks[i].clips.len()
                && (#[trigger] self.tracks[i].clips[j]).id.0 == id
    }

    /// The engine is well formed when the bus is stereo, the tempo map
    /// is valid, every track is well formed, and every identifier in
    /// use lies below the allocation counter.
    pub open spec fn wf(self) -> bool {
        &&& self.sample_rate > 0
        &&& self.channels == 2
        &&& self.transport.tempo.wf()
        &&& self.transport.position_frames < MAX_FRAMES
        &&& gain_bits_valid(self.master_gain_bits)
        &&& forall|i: int| 0 <= i < self.tracks.len() ==> (#[trigger] self.tracks[i]).wf()
        &&& forall|i: int|
            0 <= i < self.tracks.len() ==> (#[trigger] self.tracks[i]).id.0 < self.next_id
        &&& forall|i: int, j: int|
            0 <= i < self.tracks.len() && 0 <= j < self.tracks[i].clips.len()
                ==> (#[trigger] self.tracks[i].clips[j]).id.0 < self.next_id
    }

    /// A fresh engine: stopped at the origin, default tempo, unity
    /// master gain, no tracks.
    pub fn new(sample_rate: u32, channels: u32) -> (engine: Engine)
        requires
            sample_rate > 0,
            channels == 2,
        ensures
            engine.sample_rate == sample_rate,
            engine.channels == channels,
            engine.transport.position_frames == 0,
            !engine.transport.playing,
            engine.transport.tempo.bpm_millis == 120_000,
            engine.master_gain_bits == BITS_ONE,
            engine.next_id == 0,
            engine.tracks@.len() == 0,
            engine.wf(),
    {
        Engine {
            sample_rate,
            channels,
            transport: Transport {
                position_frames: 0,
                playing: false,
                tempo: TempoMap::default(),
            },
            master_gain_bits: BITS_ONE,
            next_id: 0,
            tracks: Vec::new(),
        }
    }

    /// Append a fresh, empty track and return its identifier, drawn
    /// from the monotonic counter.
    pub fn add_track(&mut self, name: String) -> (id: TrackId)
        requires
            old(self).wf(),
            old(self).next_id < u32::MAX,
        ensures
            id.0 == old(self).next_id,
            !old(self).contains_id(id.0),
            final(self).next_id == old(self).next_id + 1,
            final(self).tracks@.len() == old(self).tracks@.len() + 1,
            final(self).tracks@[old(self).tracks@.len() as int].id == id,
            final(self).tracks@[old(self).tracks@.len() as int].name == name,
            final(self).tracks@[old(self).tracks@.len() as int].clips@.len() == 0,
            final(self).tracks@[old(self).tracks@.len() as int].color@ == Seq::<char>::empty(),
            final(self).tracks@[old(self).tracks@.len() as int].gain_bits == BITS_ONE,
            final(self).tracks@[old(self).tracks@.len() as int].pan_bits
                == crate::params::BITS_ZERO,
            !final(self).tracks@[old(self).tracks@.len() as int].muted,
            !final(self).tracks@[old(self).tracks@.len() as int].solo,
            final(self).tracks@[old(self).tracks@.len() as int].state == TrackState::Stopped,
            final(self).tracks@[old(self).tracks@.len() as int].eq@
                == crate::params::spec_default_eq_chain(),
            final(self).tracks@[old(self).tracks@.len() as int].compressor
                == crate::params::spec_default_compressor(),
            forall|i: int|
                0 <= i < old(self).tracks@.len() ==> final(self).tracks@[i] == old(self).tracks@[i],
            final(self).sample_rate == old(self).sample_rate,
            final(self).channels == old(self).channels,
            final(self).transport == old(self).transport,
            final(self).master_gain_bits == old(self).master_gain_bits,
            final(self).wf(),
    {
        let id = TrackId(self.next_id);
        self.next_id = self.next_id + 1;
        let track = Track::new(id, name);
        self.tracks.push(track);
        id
    }

    /// Place a clip with explicit trim and length on a track, as the
    /// project loader does.  Returns `None`, changing nothing, when
    /// the track index is out of range or the clip data is degenerate
    /// (no frames, or counts too large to schedule).
    pub fn place_clip(
        &mut self,
        track_index: usize,
        path: String,
        start_frames: u64,
        offset_frames: u64,
        duration_frames: u64,
        source_duration_frames: u64,
        source_sample_rate: u32,
        source_channels: u32,
    ) -> (added: Option<ClipId>)
        requires
            old(self).wf(),
            old(self).next_id < u32::MAX,
        ensures
            final(self).wf(),
            added is Some <==> {
                &&& track_index < old(self).tracks@.len()
                &&& duration_frames > 0
                &&& start_frames + duration_frames < MAX_FRAMES
                &&& offset_frames + duration_frames < MAX_FRAMES
                &&& source_duration_frames < MAX_FRAMES
            },
            match added {
                Some(id) => {
                    &&& id.0 == old(self).next_id
                    &&& !old(self).contains_id(id.0)
                    &&& final(self).next_id == old(self).next_id + 1
                    &&& final(self).tracks@.len() == old(self).tracks@.len()
                    &&& final(self).tracks@[track_index as int].clips@ == old(self).tracks@[track_index as int].clips@.push(
                        Clip {
                            id,
                            path: path,
                            start_frames,
                            offset_frames,
                            duration_frames,
                            source_duration_frames,
                            source_sample_rate,
                            source_channels,
                        },
                    )
                    &&& forall|i: int|
                        0 <= i < old(self).tracks@.len() && i != track_index ==> final(self).tracks@[i] == old(self).tracks@[i]
                    &&& same_but_clips(
                        old(self).tracks@[track_index as int],
                        final(self).tracks@[track_index as int],
                    )
                    &&& final(self).transport == old(self).transport
                    &&& final(self).master_gain_bits == old(self).master_gain_bits
                    &&& final(self).sample_rate == old(self).sample_rate
                    &&& final(self).channels == old(self).channels
                },
                None => *final(self) == *old(self),
            },
    {
        if track_index >= self.tracks.len() || duration_frames == 0
            || duration_frames >= MAX_FRAMES
            || start_frames >= MAX_FRAMES - duration_frames
            || offset_frames >= MAX_FRAMES - duration_frames
            || source_duration_frames >= MAX_FRAMES {
            return None;
        }
        let id = ClipId(self.next_id);
        self.next_id = self.next_id + 1;
        let clip = Clip {
            id,
            path,
            start_frames,
            offset_frames,
            duration_frames,
            source_duration_frames,
            source_sample_rate,
            source_channels,
        };
        let track = &mut self.tracks[track_index];
        track.clips.push(clip);
        Some(id)
    }

    /// Place a clip of a freshly imported source on a track: trimmed
    /// from the head of the file (no offset), showing the whole source.
    /// Returns `None`, changing nothing, when the track index is out of
    /// range or the source metadata is degenerate (no frames, or counts
    /// too large to schedule).
    pub fn add_clip(
        &mut self,
        track_index: usize,
        path: String,
        start_frames: u64,
        source_duration_frames: u64,
        source_sample_rate: u32,
        source_channels: u32,
    ) -> (added: Option<ClipId>)
        requires
            old(self).wf(),
            old(self).next_id < u32::MAX,
        ensures
            final(self).wf(),
            added is Some <==> {
                &&& track_index < old(self).tracks@.len()
                &&& source_duration_frames > 0
                &&& start_frames + source_duration_frames < MAX_FRAMES
            },
            match added {
                Some(id) => {
                    &&& id.0 == old(self).next_id
                    &&& !old(self).contains_id(id.0)
                    &&& final(self).next_id == old(self).next_id + 1
                    &&& final(self).tracks@.len() == old(self).tracks@.len()
                    &&& final(self).tracks@[track_index as int].clips@ == old(self).tracks@[track_index as int].clips@.push(
                        Clip {
                            id,
                            path: path,
                            start_frames,
                            offset_frames: 0,
                            duration_frames: source_duration_frames,
                            source_duration_frames,
                            source_sample_rate,
                            source_channels,
                        },
                    )
                    &&& forall|i: int|
                        0 <= i < old(self).tracks@.len() && i != track_index ==> final(self).tracks@[i] == old(self).tracks@[i]
                    &&& same_but_clips(
                        old(self).tracks@[track_index as int],
                        final(self).tracks@[track_index as int],
                    )
                    &&& final(self).transport == old(self).transport
                    &&& final(self).master_gain_bits == old(self).master_gain_bits
                    &&& final(self).sample_rate == old(self).sample_rate
                    &&& final(self).channels == old(self).channels
                },
                None => *final(self) == *old(self),
            },
    {
        if track_index >= self.tracks.len() || source_duration_frames == 0
            || source_duration_frames >= MAX_FRAMES
            || start_frames >= MAX_FRAMES - source_duration_frames {
            return None;
        }
        let id = ClipId(self.next_id);
        self.next_id = self.next_id + 1;
        let clip = Clip {
            id,
            path,
            start_frames,
            offset_frames: 0,
            duration_frames: source_duration_frames,
            source_duration_frames,
            source_sample_rate,
            source_channels,
        };
        let track = &mut self.tracks[track_index];
        track.clips.push(clip);
        Some(id)
    }

    /// Whether any track is soloed.
    pub fn any_solo(&self) -> (any: bool)
        ensures
            any == spec_any_solo(self.tracks@),
    {
        let mut i: usize = 0;
        while i < self.tracks.len()
            invariant
                i <= self.tracks@.len(),
                forall|j: int| 0 <= j < i ==> !(#[trigger] self.tracks@[j]).solo,
            decreases self.tracks@.len() - i,
        {
            if self.tracks[i].solo {
                return true;
            }
            i = i + 1;
        }
        false
    }

    /// Start playback: the playhead advances from here on and every
    /// track is put in the playing state.
    pub fn play(&mut self)
        ensures
            final(self).transport.playing,
            final(self).transport.position_frames == old(self).transport.position_frames,
            final(self).transport.tempo == old(self).transport.tempo,
            final(self).tracks@.len() == old(self).tracks@.len(),
            forall|i: int|
                0 <= i < old(self).tracks@.len() ==> final(self).tracks@[i] == (Track {
                    state: TrackState::Playing,
                    ..old(self).tracks@[i]
                }),
            final(self).sample_rate == old(self).sample_rate,
            final(self).channels == old(self).channels,
            final(self).master_gain_bits == old(self).master_gain_bits,
            final(self).next_id == old(self).next_id,
            old(self).wf() ==> final(self).wf(),
    {
        self.transport.playing = true;
        self.set_all_states(TrackState::Playing);
    }

    /// Pause playback: the playhead stops and every track is put in the
    /// paused state.
    pub fn pause(&mut self)
        ensures
            !final(self).transport.playing,
            final(self).transport.position_frames == old(self).transport.position_frames,
            final(self).transport.tempo == old(self).transport.tempo,
            final(self).tracks@.len() == old(self).tracks@.len(),
            forall|i: int|
                0 <= i < old(self).tracks@.len() ==> final(self).tracks@[i] == (Track {
                    state: TrackState::Paused,
                    ..old(self).tracks@[i]
                }),
            final(self).sample_rate == old(self).sample_rate,
            final(self).channels == old(self).channels,
            final(self).master_gain_bits == old(self).master_gain_bits,
            final(self).next_id == old(self).next_id,
            old(self).wf() ==> final(self).wf(),
    {
        self.transport.playing = false;
        self.set_all_states(TrackState::Paused);
    }

    /// Put every track in state `st`.
    fn set_all_states(&mut self, st: TrackState)
        ensures
            final(self).tracks@.len() == old(self).tracks@.len(),
            forall|i: int|
                0 <= i < old(self).tracks@.len() ==> final(self).tracks@[i] == (Track {
                    state: st,
                    ..old(self).tracks@[i]
                }),
            final(self).transport == old(self).transport,
            final(self).sample_rate == old(self).sample_rate,
            final(self).channels == old(self).channels,
            final(self).master_gain_bits == old(self).master_gain_bits,
            final(self).next_id == old(self).next_id,
            old(self).wf() ==> final(self).wf(),
    {
        let mut i: usize = 0;
        while i < self.tracks.len()
            invariant
                i <= self.tracks@.len(),
                self.tracks@.len() == old(self).tracks@.len(),
                forall|j: int|
                    0 <= j < i ==> self.tracks@[j] == (Track {
                        state: st,
                        ..old(self).tracks@[j]
                    }),
                forall|j: int|
                    i <= j < self.tracks@.len() ==> self.tracks@[j] == old(self).tracks@[j],
                self.transport == old(self).transport,
                self.sample_rate == old(self).sample_rate,
                self.channels == old(self).channels,
                self.master_gain_bits == old(self).master_gain_bits,
                self.next_id == old(self).next_id,
            decreases self.tracks@.len() - i,
        {
            let track = &mut self.tracks[i];
            track.state = st;
            proof {
                assert(self.tracks@[i as int] == (Track {
                    state: st,
                    ..old(self).tracks@[i as int]
                }));
            }
            i = i + 1;
        }
        proof {
            if old(self).wf() {
                assert forall|k: int| 0 <= k < self.tracks.len() implies (
                #[trigger] self.tracks[k]).wf() by {
                    assert(old(self).tracks[k].wf());
                    assert(self.tracks@[k].clips == old(self).tracks@[k].clips);
                }
                assert forall|k: int, j: int|
                    0 <= k < self.tracks.len() && 0 <= j < self.tracks[k].clips.len() implies (
                #[trigger] self.tracks[k].clips[j]).id.0 < self.next_id by {
                    assert(old(self).tracks[k].clips[j].id.0 < old(self).next_id);
                }
            }
        }
    }

    /// Move the playhead to `pos` and compute, for every clip of every
    /// track, where its decoder should resume from — `None` where the
    /// clip's source is already exhausted at `pos`.
    pub fn seek(&mut self, pos: u64) -> (targets: Vec<Vec<Option<u64>>>)
        requires
            old(self).wf(),
            pos < MAX_FRAMES,
        ensures
            final(self).wf(),
            final(self).transport.position_frames == pos,
            final(self).transport.playing == old(self).transport.playing,
            final(self).transport.tempo == old(self).transport.tempo,
            final(self).tracks == old(self).tracks,
            final(self).sample_rate == old(self).sample_rate,
            final(self).channels == old(self).channels,
            final(self).master_gain_bits == old(self).master_gain_bits,
            final(self).next_id == old(self).next_id,
            targets@.len() == old(self).tracks@.len(),
            forall|i: int, j: int|
                0 <= i < targets@.len() && 0 <= j < targets@[i]@.len() ==> match (
                #[trigger] targets@[i]@[j]) {
                    Some(p) => p == old(self).tracks@[i].clips@[j].spec_seek_file_pos(pos as int)
                        && p < old(self).tracks@[i].clips@[j].source_duration_frames,
                    None => old(self).tracks@[i].clips@[j].spec_seek_file_pos(pos as int) >= old(self).tracks@[i].clips@[j].source_duration_frames,
                },
            forall|i: int|
                0 <= i < targets@.len() ==> (#[trigger] targets@[i])@.len() == old(self).tracks@[i].clips@.len(),
    {
        self.transport.position_frames = pos;
        let mut targets: Vec<Vec<Option<u64>>> = Vec::new();
        let mut i: usize = 0;
        while i < self.tracks.len()
            invariant
                self.wf(),
                pos < MAX_FRAMES,
                self.transport.position_frames == pos,
                i <= self.tracks@.len(),
                targets@.len() == i,
                forall|k: int, j: int|
                    0 <= k < i && 0 <= j < targets@[k]@.len() ==> match (
                    #[trigger] targets@[k]@[j]) {
                        Some(p) => p == self.tracks@[k].clips@[j].spec_seek_file_pos(pos as int)
                            && p < self.tracks@[k].clips@[j].source_duration_frames,
                        None => self.tracks@[k].clips@[j].spec_seek_file_pos(pos as int)
                            >= self.tracks@[k].clips@[j].source_duration_frames,
                    },
                forall|k: int|
                    0 <= k < i ==> (#[trigger] targets@[k])@.len() == self.tracks@[k].clips@.len(),
            decreases self.tracks@.len() - i,
        {
            let track_targets = self.tracks[i].seek_targets(pos);
            targets.push(track_targets);
            i = i + 1;
        }
        targets
    }

    /// Set the tempo, in thousandths of a beat per minute.
    pub fn set_bpm(&mut self, bpm_millis: u32)
        requires
            old(self).wf(),
            bpm_millis > 0,
            bpm_millis * old(self).transport.tempo.signature.denominator <= BEAT_SCALE_MICROS,
        ensures
            final(self).wf(),
            final(self).transport.tempo.bpm_millis == bpm_millis,
            final(self).transport.tempo.signature == old(self).transport.tempo.signature,
            final(self).transport.position_frames == old(self).transport.position_frames,
            final(self).transport.playing == old(self).transport.playing,
            final(self).tracks == old(self).tracks,
            final(self).sample_rate == old(self).sample_rate,
            final(self).channels == old(self).channels,
            final(self).master_gain_bits == old(self).master_gain_bits,
            final(self).next_id == old(self).next_id,
    {
        self.transport.tempo.bpm_millis = bpm_millis;
    }

    /// Remove every track.  Identifiers already handed out stay
    /// retired: the allocation counter is kept.
    pub fn clear_tracks(&mut self)
        ensures
            final(self).tracks@.len() == 0,
            final(self).transport == old(self).transport,
            final(self).sample_rate == old(self).sample_rate,
            final(self).channels == old(self).channels,
            final(self).master_gain_bits == old(self).master_gain_bits,
            final(self).next_id == old(self).next_id,
            old(self).wf() ==> final(self).wf(),
    {
        self.tracks = Vec::new();
    }

    /// Set the master gain from a valid bit pattern in [0, 2].
    pub fn set_master_gain(&mut self, gain_bits: u32)
        requires
            gain_bits_valid(gain_bits),
        ensures
            *final(self) == (Engine { master_gain_bits: gain_bits, ..*old(self) }),
            old(self).wf() ==> final(self).wf(),
    {
        self.master_gain_bits = gain_bits;
    }

    /// Schedule one render block of `frames` frames.
    ///
    /// At rest — transport not playing — nothing is scheduled and
    /// nothing changes: the host fills the block with exact zeros.
    /// While playing, every track in the playing state contributes an
    /// entry (audible or merely draining), and the playhead advances by
    /// exactly the block length.
    pub fn render(&mut self, frames: u64) -> (plan: RenderPlan)
        requires
            old(self).wf(),
            0 < frames < MAX_FRAMES,
            old(self).transport.position_frames + frames < MAX_FRAMES,
        ensures
            final(self).wf(),
            plan.frames == frames,
            !old(self).transport.playing ==> *final(self) == *old(self)
                && plan.track_renders@.len() == 0,
            old(self).transport.playing ==> {
                &&& final(self).transport.position_frames == old(self).transport.position_frames
                    + frames
                &&& final(self).transport.playing == old(self).transport.playing
                &&& final(self).transport.tempo == old(self).transport.tempo
                &&& final(self).tracks == old(self).tracks
                &&& final(self).sample_rate == old(self).sample_rate
                &&& final(self).channels == old(self).channels
                &&& final(self).master_gain_bits == old(self).master_gain_bits
                &&& final(self).next_id == old(self).next_id
            },
            plan.any_solo == spec_any_solo(old(self).tracks@),
            plan.master_gain_bits == old(self).master_gain_bits,
            plan.apply_master == master_gain_applies(old(self).master_gain_bits),
            old(self).transport.playing ==> {
                let tracks = old(self).tracks@;
                let pos = old(self).transport.position_frames as int;
                let idxs = spec_playing_indices(tracks, tracks.len() as int);
                &&& plan.track_renders@.len() == idxs.len()
                &&& forall|j: int|
                    0 <= j < idxs.len() ==> {
                        let k = idxs[j];
                        let audible = tracks[k].spec_audible(spec_any_solo(tracks));
                        &&& (#[trigger] plan.track_renders@[j]).track_index == k
                        &&& plan.track_renders@[j].audible == audible
                        &&& plan.track_renders@[j].tasks@ == spec_block_plan(
                            tracks[k].clips@,
                            pos,
                            frames as int,
                            audible,
                        )
                    }
            },
    {
        let any_solo = self.any_solo();
        let apply_master = self.master_gain_bits > crate::params::MASTER_UNITY_HI_BITS
            || self.master_gain_bits < crate::params::MASTER_UNITY_LO_BITS;

        if !self.transport.playing {
            return RenderPlan {
                frames,
                any_solo,
                master_gain_bits: self.master_gain_bits,
                apply_master,
                track_renders: Vec::new(),
            };
        }

        let pos = self.transport.position_frames;
        let mut track_renders: Vec<TrackRender> = Vec::new();
        let mut i: usize = 0;
        while i < self.tracks.len()
            invariant
                self.wf(),
                pos < MAX_FRAMES,
                0 < frames < MAX_FRAMES,
                pos == self.transport.position_frames,
                i <= self.tracks@.len(),
                any_solo == spec_any_solo(self.tracks@),
                track_renders@.len() == spec_playing_indices(self.tracks@, i as int).len(),
                forall|j: int|
                    0 <= j < track_renders@.len() ==> {
                        let k = spec_playing_indices(self.tracks@, i as int)[j];
                        let audible = self.tracks@[k].spec_audible(any_solo);
                        &&& (#[trigger] track_renders@[j]).track_index == k
                        &&& track_renders@[j].audible == audible
                        &&& track_renders@[j].tasks@ == spec_block_plan(
                            self.tracks@[k].clips@,
                            pos as int,
                            frames as int,
                            audible,
                        )
                    },
            decreases self.tracks@.len() - i,
        {
            proof {
                lemma_playing_indices_extend(self.tracks@, i as int);
            }
            let track = &self.tracks[i];
            if track.is_playing() {
                let audible = track.is_audible(any_solo);
                let tasks = track.plan_block(pos, frames, audible);
                track_renders.push(TrackRender { track_index: i, audible, tasks });
            }
            i = i + 1;
        }
        self.transport.position_frames = pos + frames;
        RenderPlan {
            frames,
            any_solo,
            master_gain_bits: self.master_gain_bits,
            apply_master,
            track_renders,
        }
    }
}

/// Extending the prefix by one track appends its index exactly when it
/// is in the playing state.
proof fn lemma_playing_indices_extend(tracks: Seq<Track>, n: int)
    requires
        0 <= n < tracks.len(),
    ensures
        tracks[n].state == TrackState::Playing ==> spec_playing_indices(tracks, n + 1)
            == spec_playing_indices(tracks, n).push(n),
        tracks[n].state != TrackState::Playing ==> spec_playing_indices(tracks, n + 1)
            == spec_playing_indices(tracks, n),
{
}

} // verus!
