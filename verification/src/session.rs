//! The session facade: all edits enter here, are applied to the
//! engine and recorded in the bounded history; projects are saved to
//! and restored from manifests.

use crate::clip::{Clip, ClipId, MAX_FRAMES};
use crate::commands::{
    spec_applies, spec_error, spec_execute_rel, spec_undo_applies, spec_undo_error, spec_undo_rel,
    Command, CommandError,
};
use crate::engine::Engine;
use crate::history::CommandManager;
use crate::manifest::{
    lemma_load_items_monotone, loads_track, saves_track, spec_load_items, ClipState,
    ProjectManifest, TrackState,
};
use crate::params::EqParams;
use crate::track::Track;
use vstd::prelude::*;

verus! {

/// Why a manifest could not be loaded.
#[derive(Clone, Copy, Debug, PartialEq, Eq, Structural)]
pub enum LoadError {
    /// The manifest's tempo, a parameter or a clip is out of range.
    InvalidManifest,
}

/// Depth of the undo history a session keeps.
pub const SESSION_HISTORY: usize = 100;

/// Owns the command history and applies edits to the engine.
#[derive(Debug)]
pub struct Session {
    pub command_manager: CommandManager,
}

impl Session {
    /// A fresh session with an empty history.
    pub fn new() -> (session: Session)
        ensures
            session.command_manager.undo_stack@.len() == 0,
            session.command_manager.redo_stack@.len() == 0,
            session.command_manager.max_history == SESSION_HISTORY,
            session.command_manager.inv(),
    {
        Session { command_manager: CommandManager::new(SESSION_HISTORY) }
    }

    /// Apply an edit to the engine and record it for undo.
    pub fn apply(&mut self, engine: &mut Engine, cmd: Command) -> (outcome: Result<
        (),
        CommandError,
    >)
        requires
            old(self).command_manager.inv(),
            old(engine).wf(),
        ensures
            final(self).command_manager.inv(),
            final(engine).wf(),
            final(self).command_manager.max_history == old(self).command_manager.max_history,
            outcome is Ok <==> spec_applies(*old(engine), cmd),
            outcome is Ok ==> ({
                &&& spec_execute_rel(*old(engine), *final(engine), cmd)
                &&& final(self).command_manager.redo_stack@.len() == 0
                &&& final(self).command_manager.undo_stack@ == if old(self).command_manager.undo_stack@.len() == old(self).command_manager.max_history {
                    old(self).command_manager.undo_stack@.drop_first().push(cmd)
                } else {
                    old(self).command_manager.undo_stack@.push(cmd)
                }
            }),
            outcome is Err ==> *final(engine) == *old(engine) && final(self).command_manager.undo_stack@ == old(self).command_manager.undo_stack@ && final(self).command_manager.redo_stack@ == old(self).command_manager.redo_stack@ && outcome
                == Result::<(), CommandError>::Err(spec_error(*old(engine), cmd)),
    {
        self.command_manager.push(cmd, engine)
    }

    /// Reverse the most recent edit.
    pub fn undo(&mut self, engine: &mut Engine) -> (outcome: Result<bool, CommandError>)
        requires
            old(self).command_manager.inv(),
            old(engine).wf(),
        ensures
            final(self).command_manager.inv(),
            final(engine).wf(),
            final(self).command_manager.max_history == old(self).command_manager.max_history,
            outcome == Result::<bool, CommandError>::Ok(false) ==> old(self).command_manager.undo_stack@.len() == 0 && *final(engine) == *old(engine) && final(self).command_manager.undo_stack@ == old(self).command_manager.undo_stack@ && final(self).command_manager.redo_stack@ == old(self).command_manager.redo_stack@,
            outcome == Result::<bool, CommandError>::Ok(true) ==> ({
                let last = old(self).command_manager.undo_stack@.last();
                &&& old(self).command_manager.undo_stack@.len() > 0
                &&& spec_undo_applies(*old(engine), last)
                &&& spec_undo_rel(*old(engine), *final(engine), last)
                &&& final(self).command_manager.undo_stack@ == old(self).command_manager.undo_stack@.drop_last()
                &&& final(self).command_manager.redo_stack@ == old(self).command_manager.redo_stack@.push(last)
            }),
            outcome is Err ==> ({
                let last = old(self).command_manager.undo_stack@.last();
                &&& old(self).command_manager.undo_stack@.len() > 0
                &&& !spec_undo_applies(*old(engine), last)
                &&& *final(engine) == *old(engine)
                &&& final(self).command_manager.undo_stack@ == old(self).command_manager.undo_stack@
                &&& final(self).command_manager.redo_stack@ == old(self).command_manager.redo_stack@
                &&& outcome == Result::<bool, CommandError>::Err(
                    spec_undo_error(*old(engine), last),
                )
            }),
    {
        self.command_manager.undo(engine)
    }

    /// Re-apply the most recently undone edit.
    pub fn redo(&mut self, engine: &mut Engine) -> (outcome: Result<bool, CommandError>)
        requires
            old(self).command_manager.inv(),
            old(engine).wf(),
        ensures
            final(self).command_manager.inv(),
            final(engine).wf(),
            final(self).command_manager.max_history == old(self).command_manager.max_history,
            outcome == Result::<bool, CommandError>::Ok(false) ==> old(self).command_manager.redo_stack@.len() == 0 && *final(engine) == *old(engine) && final(self).command_manager.undo_stack@ == old(self).command_manager.undo_stack@ && final(self).command_manager.redo_stack@ == old(self).command_manager.redo_stack@,
            outcome == Result::<bool, CommandError>::Ok(true) ==> ({
                let last = old(self).command_manager.redo_stack@.last();
                &&& old(self).command_manager.redo_stack@.len() > 0
                &&& spec_applies(*old(engine), last)
                &&& spec_execute_rel(*old(engine), *final(engine), last)
                &&& final(self).command_manager.redo_stack@ == old(self).command_manager.redo_stack@.drop_last()
                &&& final(self).command_manager.undo_stack@ == old(self).command_manager.undo_stack@.push(last)
            }),
            outcome is Err ==> ({
                let last = old(self).command_manager.redo_stack@.last();
                &&& old(self).command_manager.redo_stack@.len() > 0
                &&& !spec_applies(*old(engine), last)
                &&& *final(engine) == *old(engine)
                &&& final(self).command_manager.undo_stack@ == old(self).command_manager.undo_stack@
                &&& final(self).command_manager.redo_stack@ == old(self).command_manager.redo_stack@
                &&& outcome == Result::<bool, CommandError>::Err(spec_error(*old(engine), last))
            }),
    {
        self.command_manager.redo(engine)
    }

    /// Gather the whole project into a manifest: every track with its
    /// parameters, DSP chain and clips, the tempo and the master gain.
    pub fn save_project(&self, engine: &Engine) -> (manifest: ProjectManifest)
        requires
            engine.wf(),
        ensures
            manifest.version == 1,
            manifest.master_gain_bits == engine.master_gain_bits,
            manifest.bpm_millis == engine.transport.tempo.bpm_millis,
            manifest.tracks@.len() == engine.tracks@.len(),
            forall|i: int|
                0 <= i < engine.tracks@.len() ==> saves_track(
                    engine.tracks@[i],
                    #[trigger] manifest.tracks@[i],
                ),
    {
        let mut tracks: Vec<TrackState> = Vec::new();
        let mut i: usize = 0;
        while i < engine.tracks.len()
            invariant
                engine.wf(),
                i <= engine.tracks@.len(),
                tracks@.len() == i,
                forall|k: int|
                    0 <= k < i ==> saves_track(engine.tracks@[k], #[trigger] tracks@[k]),
            decreases engine.tracks@.len() - i,
        {
            let t = &engine.tracks[i];
            let clips = save_clips(&t.clips);
            let eq = copy_eq(&t.eq);
            tracks.push(
                TrackState {
                    name: t.name.clone(),
                    color: t.color.clone(),
                    gain_bits: t.gain_bits,
                    pan_bits: t.pan_bits,
                    muted: t.muted,
                    solo: t.solo,
                    clips,
                    compressor: Some(t.compressor),
                    eq: Some(eq),
                },
            );
            i = i + 1;
        }
        ProjectManifest {
            version: 1,
            master_gain_bits: engine.master_gain_bits,
            bpm_millis: engine.transport.tempo.bpm_millis,
            tracks,
        }
    }

    /// Restore a project from a manifest: existing tracks are
    /// discarded, the command history is cleared, and each saved track
    /// is rebuilt with its clips' offsets and durations preserved.
    /// Track and clip identifiers are assigned anew from the counter,
    /// which never runs backwards.  An invalid manifest changes
    /// nothing.
    pub fn load_project(&mut self, engine: &mut Engine, m: &ProjectManifest) -> (outcome: Result<
        (),
        LoadError,
    >)
        requires
            old(engine).wf(),
            old(engine).next_id + spec_load_items(m.tracks@, m.tracks@.len() as int) <= u32::MAX,
        ensures
            final(engine).wf(),
            outcome is Ok <==> m.valid(old(engine).transport.tempo.signature.denominator),
            outcome is Ok ==> ({
                &&& final(self).command_manager.undo_stack@.len() == 0
                &&& final(self).command_manager.redo_stack@.len() == 0
                &&& final(self).command_manager.max_history == SESSION_HISTORY
                &&& final(engine).transport.tempo.bpm_millis == m.bpm_millis
                &&& final(engine).transport.tempo.signature == old(
                    engine,
                ).transport.tempo.signature
                &&& final(engine).transport.position_frames == old(
                    engine,
                ).transport.position_frames
                &&& final(engine).transport.playing == old(engine).transport.playing
                &&& final(engine).master_gain_bits == m.master_gain_bits
                &&& final(engine).sample_rate == old(engine).sample_rate
                &&& final(engine).channels == old(engine).channels
                &&& final(engine).next_id >= old(engine).next_id
                &&& final(engine).tracks@.len() == m.tracks@.len()
                &&& forall|i: int|
                    0 <= i < m.tracks@.len() ==> loads_track(
                        m.tracks@[i],
                        #[trigger] final(engine).tracks@[i],
                    )
            }),
            outcome is Err ==> *final(engine) == *old(engine) && *final(self) == *old(self),
    {
        if !manifest_is_valid(m, engine.transport.tempo.signature.denominator) {
            return Err(LoadError::InvalidManifest);
        }

        let ghost base = engine.next_id;
        let mut next: u32 = engine.next_id;
        let mut new_tracks: Vec<Track> = Vec::new();
        let mut i: usize = 0;
        while i < m.tracks.len()
            invariant
                m.valid(old(engine).transport.tempo.signature.denominator),
                base == old(engine).next_id,
                base + spec_load_items(m.tracks@, m.tracks@.len() as int) <= u32::MAX,
                i <= m.tracks@.len(),
                next == base + spec_load_items(m.tracks@, i as int),
                new_tracks@.len() == i,
                forall|k: int|
                    0 <= k < i ==> loads_track(m.tracks@[k], #[trigger] new_tracks@[k]),
                forall|k: int| 0 <= k < i ==> (#[trigger] new_tracks@[k]).wf(),
                forall|k: int| 0 <= k < i ==> (#[trigger] new_tracks@[k]).id.0 < next,
                forall|k: int, j: int|
                    0 <= k < i && 0 <= j < new_tracks@[k].clips@.len()
                        ==> (#[trigger] new_tracks@[k].clips@[j]).id.0 < next,
            decreases m.tracks@.len() - i,
        {
            proof {
                lemma_load_items_monotone(m.tracks@, i as int, m.tracks@.len() as int);
                lemma_load_items_monotone(m.tracks@, i + 1, m.tracks@.len() as int);
                assert(m.tracks@[i as int].valid());
            }
            let ts = &m.tracks[i];
            let mut track = Track::new(crate::track::TrackId(next), ts.name.clone());
            next = next + 1;
            track.color = ts.color.clone();
            track.gain_bits = ts.gain_bits;
            track.pan_bits = ts.pan_bits;
            track.muted = ts.muted;
            track.solo = ts.solo;
            match &ts.eq {
                Some(eq) => {
                    track.eq = copy_eq(eq);
                },
                None => {},
            }
            match &ts.compressor {
                Some(cp) => {
                    track.compressor = *cp;
                },
                None => {},
            }
            let mut j: usize = 0;
            while j < ts.clips.len()
                invariant
                    m.valid(old(engine).transport.tempo.signature.denominator),
                    i < m.tracks@.len(),
                    *ts == m.tracks@[i as int],
                    j <= ts.clips@.len(),
                    next == base + spec_load_items(m.tracks@, i as int) + 1 + j,
                    base + spec_load_items(m.tracks@, i + 1) <= u32::MAX,
                    track.clips@.len() == j,
                    forall|k: int|
                        0 <= k < j ==> (#[trigger] ts.clips@[k]).matches_clip(track.clips@[k]),
                    forall|k: int| 0 <= k < j ==> (#[trigger] track.clips@[k]).wf(),
                    forall|k: int| 0 <= k < j ==> (#[trigger] track.clips@[k]).id.0 < next,
                    track.id.0 < next,
                    track.name == ts.name,
                    track.color == ts.color,
                    track.gain_bits == ts.gain_bits,
                    track.pan_bits == ts.pan_bits,
                    track.muted == ts.muted,
                    track.solo == ts.solo,
                    track.state == crate::track::TrackState::Stopped,
                    track.eq@ == (match ts.eq {
                        Some(eq) => eq@,
                        None => crate::params::spec_default_eq_chain(),
                    }),
                    track.compressor == (match ts.compressor {
                        Some(c) => c,
                        None => crate::params::spec_default_compressor(),
                    }),
                decreases ts.clips@.len() - j,
            {
                proof {
                    assert(ts.clips@[j as int].valid());
                    assert(spec_load_items(m.tracks@, i + 1) == spec_load_items(m.tracks@, i as int)
                        + 1 + m.tracks@[i as int].clips@.len());
                }
                let cs = &ts.clips[j];
                track.clips.push(
                    Clip {
                        id: ClipId(next),
                        path: cs.path.clone(),
                        start_frames: cs.start_frames,
                        offset_frames: cs.offset_frames,
                        duration_frames: cs.duration_frames,
                        source_duration_frames: cs.source_duration_frames,
                        source_sample_rate: cs.source_sample_rate,
                        source_channels: cs.source_channels,
                    },
                );
                next = next + 1;
                j = j + 1;
            }
            new_tracks.push(track);
            i = i + 1;
        }

        proof {
            lemma_load_items_monotone(m.tracks@, 0, m.tracks@.len() as int);
        }
        engine.tracks = new_tracks;
        engine.next_id = next;
        engine.transport.tempo.bpm_millis = m.bpm_millis;
        engine.master_gain_bits = m.master_gain_bits;
        self.command_manager = CommandManager::new(SESSION_HISTORY);
        Ok(())
    }
}

/// Copy a chain of EQ parameter records.
fn copy_eq(eq: &Vec<EqParams>) -> (copy: Vec<EqParams>)
    ensures
        copy@ == eq@,
{
    let mut copy: Vec<EqParams> = Vec::new();
    let mut i: usize = 0;
    while i < eq.len()
        invariant
            i <= eq@.len(),
            copy@ == eq@.subrange(0, i as int),
        decreases eq@.len() - i,
    {
        copy.push(eq[i]);
        proof {
            assert(copy@ =~= eq@.subrange(0, i + 1));
        }
        i = i + 1;
    }
    proof {
        assert(copy@ =~= eq@);
    }
    copy
}

/// The saved form of each clip of a track, in order.
fn save_clips(clips: &Vec<Clip>) -> (saved: Vec<ClipState>)
    ensures
        saved@.len() == clips@.len(),
        forall|j: int|
            0 <= j < clips@.len() ==> (#[trigger] saved@[j]).matches_clip(clips@[j]),
{
    let mut saved: Vec<ClipState> = Vec::new();
    let mut i: usize = 0;
    while i < clips.len()
        invariant
            i <= clips@.len(),
            saved@.len() == i,
            forall|j: int|
                0 <= j < i ==> (#[trigger] saved@[j]).matches_clip(clips@[j]),
        decreases clips@.len() - i,
    {
        let c = &clips[i];
        saved.push(
            ClipState {
                path: c.path.clone(),
                start_frames: c.start_frames,
                offset_frames: c.offset_frames,
                duration_frames: c.duration_frames,
                source_duration_frames: c.source_duration_frames,
                source_sample_rate: c.source_sample_rate,
                source_channels: c.source_channels,
            },
        );
        i = i + 1;
    }
    saved
}

/// Check a manifest against the engine's time signature denominator.
fn manifest_is_valid(m: &ProjectManifest, denominator: u32) -> (valid: bool)
    ensures
        valid == m.valid(denominator),
{
    if m.bpm_millis == 0 {
        return false;
    }
    proof {
        assert(m.bpm_millis as int * denominator as int <= u32::MAX as int * u32::MAX as int)
            by (nonlinear_arith)
            requires
                m.bpm_millis <= u32::MAX,
                denominator <= u32::MAX,
        ;
    }
    if m.bpm_millis as u64 * denominator as u64 > crate::tempo::BEAT_SCALE_MICROS {
        proof {
            assert(m.bpm_millis * denominator > crate::tempo::BEAT_SCALE_MICROS);
        }
        return false;
    }
    if !(m.master_gain_bits <= crate::params::BITS_TWO) {
        return false;
    }
    let mut i: usize = 0;
    while i < m.tracks.len()
        invariant
            i <= m.tracks@.len(),
            forall|k: int| 0 <= k < i ==> (#[trigger] m.tracks@[k]).valid(),
        decreases m.tracks@.len() - i,
    {
        if !track_state_is_valid(&m.tracks[i]) {
            return false;
        }
        i = i + 1;
    }
    true
}

/// Check one saved track.
fn track_state_is_valid(ts: &TrackState) -> (valid: bool)
    ensures
        valid == ts.valid(),
{
    if !(ts.gain_bits <= crate::params::BITS_TWO) {
        return false;
    }
    if !(ts.pan_bits <= crate::params::BITS_ONE || (0x8000_0000 <= ts.pan_bits && ts.pan_bits
        <= crate::params::BITS_NEG_ONE)) {
        return false;
    }
    match &ts.eq {
        Some(eq) => {
            if eq.len() != 4 {
                return false;
            }
        },
        None => {},
    }
    let mut j: usize = 0;
    while j < ts.clips.len()
        invariant
            j <= ts.clips@.len(),
            forall|k: int| 0 <= k < j ==> (#[trigger] ts.clips@[k]).valid(),
        decreases ts.clips@.len() - j,
    {
        let c = &ts.clips[j];
        let ok = c.duration_frames > 0 && c.duration_frames < MAX_FRAMES && c.start_frames
            < MAX_FRAMES && c.start_frames + c.duration_frames < MAX_FRAMES && c.offset_frames
            < MAX_FRAMES && c.offset_frames + c.duration_frames < MAX_FRAMES
            && c.source_duration_frames < MAX_FRAMES;
        if !ok {
            return false;
        }
        j = j + 1;
    }
    true
}

} // verus!
