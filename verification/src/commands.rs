//! Undoable editing commands.
//!
//! Each command names its target by identifier and carries both the
//! mutation and the state needed to reverse it, captured when the
//! command is built.  Applying a command either performs the whole
//! mutation or — when a precondition fails — leaves the engine exactly
//! as it was and reports why.

use crate::clip::{abs_diff, Clip, ClipId, MAX_FRAMES};
use crate::engine::Engine;
use crate::params::{gain_bits_valid, pan_bits_valid, EqParams};
use crate::track::{same_but_clips, Track, TrackId};
use vstd::prelude::*;

verus! {

/// Why a command could not be applied.  The engine is unchanged
/// whenever one of these is reported.
#[derive(Clone, Copy, Debug, PartialEq, Eq, Structural)]
pub enum CommandError {
    /// No track carries the command's track identifier.
    TrackNotFound,
    /// The command's clip or band index is out of range.
    ClipNotFound,
    /// A split point lies strictly inside no clip of the track.
    SplitOutsideClip,
    /// The two clips are not contiguous in timeline and source, or do
    /// not share a source file.
    MergeNotAdjacent,
    /// The clip found at the command's index is not the one the
    /// command captured.
    StaleCommand,
    /// A parameter or a captured clip is out of range.
    InvalidParameter,
    /// The identifier counter is exhausted.
    IdsExhausted,
}

/// Set a track's gain, remembering the gain it replaces.
#[derive(Clone, Copy, Debug, PartialEq, Eq, Structural)]
pub struct SetTrackGain {
    pub track_id: TrackId,
    pub old_gain_bits: u32,
    pub new_gain_bits: u32,
}

/// Set a track's pan, remembering the pan it replaces.
#[derive(Clone, Copy, Debug, PartialEq, Eq, Structural)]
pub struct SetTrackPan {
    pub track_id: TrackId,
    pub old_pan_bits: u32,
    pub new_pan_bits: u32,
}

/// Set a track's mute flag; reversed by writing the opposite flag.
#[derive(Clone, Copy, Debug, PartialEq, Eq, Structural)]
pub struct SetTrackMute {
    pub track_id: TrackId,
    pub new_state: bool,
}

/// Flip a track's solo flag; its own inverse.
#[derive(Clone, Copy, Debug, PartialEq, Eq, Structural)]
pub struct ToggleSolo {
    pub track_id: TrackId,
}

/// Move a clip to a new start time, remembering the old one.
#[derive(Clone, Copy, Debug, PartialEq, Eq, Structural)]
pub struct MoveClip {
    pub track_id: TrackId,
    pub clip_index: usize,
    pub old_start_frames: u64,
    pub new_start_frames: u64,
}

/// Publish new parameters to an EQ band, remembering the old record.
#[derive(Clone, Copy, Debug, PartialEq, Eq, Structural)]
pub struct UpdateEq {
    pub track_id: TrackId,
    pub band_index: usize,
    pub old_params: EqParams,
    pub new_params: EqParams,
}

/// Remove a clip, capturing everything needed to re-create it —
/// including its identifier, which the restored clip keeps.
#[derive(Clone, Debug, PartialEq)]
pub struct DeleteClip {
    pub track_id: TrackId,
    pub clip_index: usize,
    pub captured: Clip,
}

/// Re-insert a previously captured clip at its old index; reversed by
/// removing it again.
#[derive(Clone, Debug, PartialEq)]
pub struct RestoreClip {
    pub track_id: TrackId,
    pub clip_index: usize,
    pub clip: Clip,
}

/// Cut the clip under `at_frames` in two; reversed by merging the clip
/// ending there back with its right neighbour.
#[derive(Clone, Copy, Debug, PartialEq, Eq, Structural)]
pub struct SplitClip {
    pub track_id: TrackId,
    pub at_frames: u64,
}

/// Join a clip with its right neighbour, capturing the neighbour so
/// the join can be undone.
#[derive(Clone, Debug, PartialEq)]
pub struct MergeClips {
    pub track_id: TrackId,
    pub left_index: usize,
    pub captured_right: Clip,
}

/// An undoable edit.
#[derive(Clone, Debug)]
pub enum Command {
    SetTrackGain(SetTrackGain),
    SetTrackPan(SetTrackPan),
    SetTrackMute(SetTrackMute),
    ToggleSolo(ToggleSolo),
    MoveClip(MoveClip),
    UpdateEq(UpdateEq),
    DeleteClip(DeleteClip),
    RestoreClip(RestoreClip),
    SplitClip(SplitClip),
    MergeClips(MergeClips),
}

/// Merge tolerance in frames: one millisecond at the engine sample
/// rate.
pub open spec fn spec_merge_tol(e: Engine) -> int {
    e.sample_rate as int / 1000
}

/// The split point falls strictly inside the clip.
pub open spec fn splits_clip(c: Clip, at: int) -> bool {
    c.start_frames < at < c.spec_end_frames()
}

/// `j` is the index of the first clip the split point falls inside.
pub open spec fn is_first_splittable(clips: Seq<Clip>, at: int, j: int) -> bool {
    &&& 0 <= j < clips.len()
    &&& splits_clip(clips[j], at)
    &&& forall|k: int| 0 <= k < j ==> !splits_clip(#[trigger] clips[k], at)
}

/// Whether the split point falls inside some clip.
pub open spec fn has_splittable(clips: Seq<Clip>, at: int) -> bool {
    exists|j: int| is_first_splittable(clips, at, j)
}

/// The index of the first clip the split point falls inside.
pub open spec fn spec_split_index(clips: Seq<Clip>, at: int) -> int {
    choose|j: int| is_first_splittable(clips, at, j)
}

/// The clip ends within `tol` frames of `at`.
pub open spec fn ends_near(c: Clip, at: int, tol: int) -> bool {
    abs_diff(c.spec_end_frames(), at) <= tol
}

/// `j` is the index of the first clip ending within `tol` of `at`.
pub open spec fn is_first_ending_near(clips: Seq<Clip>, at: int, tol: int, j: int) -> bool {
    &&& 0 <= j < clips.len()
    &&& ends_near(clips[j], at, tol)
    &&& forall|k: int| 0 <= k < j ==> !ends_near(#[trigger] clips[k], at, tol)
}

/// Whether some clip ends within `tol` of `at`.
pub open spec fn has_ending_near(clips: Seq<Clip>, at: int, tol: int) -> bool {
    exists|j: int| is_first_ending_near(clips, at, tol, j)
}

/// The index of the first clip ending within `tol` of `at`.
pub open spec fn spec_ending_near_index(clips: Seq<Clip>, at: int, tol: int) -> int {
    choose|j: int| is_first_ending_near(clips, at, tol, j)
}

/// `i` is the index of the first track carrying `id`.
pub open spec fn is_first_track_with(tracks: Seq<Track>, id: TrackId, i: int) -> bool {
    &&& 0 <= i < tracks.len()
    &&& tracks[i].id == id
    &&& forall|j: int| 0 <= j < i ==> (#[trigger] tracks[j]).id != id
}

/// Whether some track carries `id`.
pub open spec fn has_track(tracks: Seq<Track>, id: TrackId) -> bool {
    exists|i: int| is_first_track_with(tracks, id, i)
}

/// The index of the first track carrying `id` (meaningful only when
/// `has_track` holds; the first index is unique).
pub open spec fn spec_track_index(tracks: Seq<Track>, id: TrackId) -> int {
    choose|i: int| is_first_track_with(tracks, id, i)
}

/// Index of the first track carrying `id`, or `None` when there is
/// none.
pub fn find_track(tracks: &Vec<Track>, id: TrackId) -> (found: Option<usize>)
    ensures
        match found {
            Some(i) => is_first_track_with(tracks@, id, i as int) && has_track(tracks@, id)
                && spec_track_index(tracks@, id) == i as int,
            None => !has_track(tracks@, id),
        },
{
    let mut i: usize = 0;
    while i < tracks.len()
        invariant
            i <= tracks@.len(),
            forall|j: int| 0 <= j < i ==> (#[trigger] tracks@[j]).id != id,
        decreases tracks@.len() - i,
    {
        if tracks[i].id == id {
            proof {
                assert(is_first_track_with(tracks@, id, i as int));
                assert forall|k: int| is_first_track_with(tracks@, id, k) implies k == i as int by {
                    if k < i as int {
                        assert(tracks@[k].id != id);
                    }
                    if k > i as int {
                        assert(tracks@[i as int].id != id);
                    }
                }
            }
            return Some(i);
        }
        i = i + 1;
    }
    proof {
        if has_track(tracks@, id) {
            let k = choose|k: int| is_first_track_with(tracks@, id, k);
            assert(tracks@[k].id != id);
        }
    }
    None
}

/// All engine fields other than the track list and the identifier
/// counter are equal between `pre` and `post`.
pub open spec fn same_but_tracks_and_ids(pre: Engine, post: Engine) -> bool {
    &&& post.sample_rate == pre.sample_rate
    &&& post.channels == pre.channels
    &&& post.transport == pre.transport
    &&& post.master_gain_bits == pre.master_gain_bits
}

/// All engine fields other than the track list are equal between `pre`
/// and `post`.
pub open spec fn same_but_tracks(pre: Engine, post: Engine) -> bool {
    &&& same_but_tracks_and_ids(pre, post)
    &&& post.next_id == pre.next_id
}

/// `post`'s track list is `pre`'s with the track at `i` replaced by
/// `t`, all else equal.
pub open spec fn tracks_updated(pre: Engine, post: Engine, i: int, t: Track) -> bool {
    &&& same_but_tracks(pre, post)
    &&& post.tracks@ == pre.tracks@.update(i, t)
}

/// `post`'s track list agrees with `pre`'s everywhere but at `i`, all
/// other engine fields equal.
pub open spec fn tracks_same_except(pre: Engine, post: Engine, i: int) -> bool {
    &&& same_but_tracks(pre, post)
    &&& post.tracks@.len() == pre.tracks@.len()
    &&& forall|j: int|
        0 <= j < pre.tracks@.len() && j != i ==> post.tracks@[j] == pre.tracks@[j]
}

/// `tpost` is `tpre` with the clip at `j` replaced by `c`.
pub open spec fn clips_updated_track(tpre: Track, tpost: Track, j: int, c: Clip) -> bool {
    &&& same_but_clips(tpre, tpost)
    &&& tpost.clips@ == tpre.clips@.update(j, c)
}

/// `tpost` is `tpre` with the EQ band at `j` replaced by `p`.
pub open spec fn eq_updated_track(tpre: Track, tpost: Track, j: int, p: EqParams) -> bool {
    &&& tpost.id == tpre.id
    &&& tpost.name == tpre.name
    &&& tpost.color == tpre.color
    &&& tpost.gain_bits == tpre.gain_bits
    &&& tpost.pan_bits == tpre.pan_bits
    &&& tpost.muted == tpre.muted
    &&& tpost.solo == tpre.solo
    &&& tpost.state == tpre.state
    &&& tpost.clips == tpre.clips
    &&& tpost.compressor == tpre.compressor
    &&& tpost.eq@ == tpre.eq@.update(j, p)
}

/// Whether the command's preconditions hold of `e`, so that applying it
/// succeeds.
pub open spec fn spec_applies(e: Engine, c: Command) -> bool {
    match c {
        Command::SetTrackGain(c) => gain_bits_valid(c.new_gain_bits) && has_track(
            e.tracks@,
            c.track_id,
        ),
        Command::SetTrackPan(c) => pan_bits_valid(c.new_pan_bits) && has_track(
            e.tracks@,
            c.track_id,
        ),
        Command::SetTrackMute(c) => has_track(e.tracks@, c.track_id),
        Command::ToggleSolo(c) => has_track(e.tracks@, c.track_id),
        Command::MoveClip(c) => {
            &&& has_track(e.tracks@, c.track_id)
            &&& c.clip_index < e.tracks@[spec_track_index(e.tracks@, c.track_id)].clips@.len()
            &&& c.new_start_frames + e.tracks@[spec_track_index(
                e.tracks@,
                c.track_id,
            )].clips@[c.clip_index as int].duration_frames < MAX_FRAMES
        },
        Command::UpdateEq(c) => {
            &&& has_track(e.tracks@, c.track_id)
            &&& c.band_index < e.tracks@[spec_track_index(e.tracks@, c.track_id)].eq@.len()
        },
        Command::DeleteClip(c) => {
            &&& has_track(e.tracks@, c.track_id)
            &&& c.clip_index < e.tracks@[spec_track_index(e.tracks@, c.track_id)].clips@.len()
            &&& e.tracks@[spec_track_index(e.tracks@, c.track_id)].clips@[c.clip_index as int].id
                == c.captured.id
        },
        Command::RestoreClip(c) => {
            &&& has_track(e.tracks@, c.track_id)
            &&& c.clip_index <= e.tracks@[spec_track_index(e.tracks@, c.track_id)].clips@.len()
            &&& c.clip.wf()
            &&& c.clip.id.0 < e.next_id
        },
        Command::SplitClip(c) => {
            &&& has_track(e.tracks@, c.track_id)
            &&& has_splittable(
                e.tracks@[spec_track_index(e.tracks@, c.track_id)].clips@,
                c.at_frames as int,
            )
            &&& e.next_id < u32::MAX
        },
        Command::MergeClips(c) => {
            let clips = e.tracks@[spec_track_index(e.tracks@, c.track_id)].clips@;
            &&& has_track(e.tracks@, c.track_id)
            &&& c.left_index + 1 < clips.len()
            &&& clips[c.left_index + 1].id == c.captured_right.id
            &&& Clip::spec_can_merge(
                clips[c.left_index as int],
                clips[c.left_index + 1],
                spec_merge_tol(e),
            )
        },
    }
}

/// The error reported when the command does not apply to `e`.
pub open spec fn spec_error(e: Engine, c: Command) -> CommandError {
    match c {
        Command::SetTrackGain(c) => if !gain_bits_valid(c.new_gain_bits) {
            CommandError::InvalidParameter
        } else {
            CommandError::TrackNotFound
        },
        Command::SetTrackPan(c) => if !pan_bits_valid(c.new_pan_bits) {
            CommandError::InvalidParameter
        } else {
            CommandError::TrackNotFound
        },
        Command::SetTrackMute(_) => CommandError::TrackNotFound,
        Command::ToggleSolo(_) => CommandError::TrackNotFound,
        Command::MoveClip(c) => if !has_track(e.tracks@, c.track_id) {
            CommandError::TrackNotFound
        } else if c.clip_index >= e.tracks@[spec_track_index(
            e.tracks@,
            c.track_id,
        )].clips@.len() {
            CommandError::ClipNotFound
        } else {
            CommandError::InvalidParameter
        },
        Command::UpdateEq(c) => if !has_track(e.tracks@, c.track_id) {
            CommandError::TrackNotFound
        } else {
            CommandError::ClipNotFound
        },
        Command::DeleteClip(c) => if !has_track(e.tracks@, c.track_id) {
            CommandError::TrackNotFound
        } else if c.clip_index >= e.tracks@[spec_track_index(
            e.tracks@,
            c.track_id,
        )].clips@.len() {
            CommandError::ClipNotFound
        } else {
            CommandError::StaleCommand
        },
        Command::RestoreClip(c) => if !has_track(e.tracks@, c.track_id) {
            CommandError::TrackNotFound
        } else if c.clip_index > e.tracks@[spec_track_index(e.tracks@, c.track_id)].clips@.len() {
            CommandError::ClipNotFound
        } else {
            CommandError::InvalidParameter
        },
        Command::SplitClip(c) => if !has_track(e.tracks@, c.track_id) {
            CommandError::TrackNotFound
        } else if !has_splittable(
            e.tracks@[spec_track_index(e.tracks@, c.track_id)].clips@,
            c.at_frames as int,
        ) {
            CommandError::SplitOutsideClip
        } else {
            CommandError::IdsExhausted
        },
        Command::MergeClips(c) => if !has_track(e.tracks@, c.track_id) {
            CommandError::TrackNotFound
        } else if c.left_index + 1 >= e.tracks@[spec_track_index(
            e.tracks@,
            c.track_id,
        )].clips@.len() {
            CommandError::ClipNotFound
        } else if e.tracks@[spec_track_index(e.tracks@, c.track_id)].clips@[c.left_index + 1].id
            != c.captured_right.id {
            CommandError::StaleCommand
        } else {
            CommandError::MergeNotAdjacent
        },
    }
}

/// How a successful application relates the engine after (`post`) to
/// the engine before (`pre`).
pub open spec fn spec_execute_rel(pre: Engine, post: Engine, c: Command) -> bool {
    match c {
        Command::SetTrackGain(c) => {
            let i = spec_track_index(pre.tracks@, c.track_id);
            tracks_updated(pre, post, i, Track { gain_bits: c.new_gain_bits, ..pre.tracks@[i] })
        },
        Command::SetTrackPan(c) => {
            let i = spec_track_index(pre.tracks@, c.track_id);
            tracks_updated(pre, post, i, Track { pan_bits: c.new_pan_bits, ..pre.tracks@[i] })
        },
        Command::SetTrackMute(c) => {
            let i = spec_track_index(pre.tracks@, c.track_id);
            tracks_updated(pre, post, i, Track { muted: c.new_state, ..pre.tracks@[i] })
        },
        Command::ToggleSolo(c) => {
            let i = spec_track_index(pre.tracks@, c.track_id);
            tracks_updated(pre, post, i, Track { solo: !pre.tracks@[i].solo, ..pre.tracks@[i] })
        },
        Command::MoveClip(c) => {
            let i = spec_track_index(pre.tracks@, c.track_id);
            let t = pre.tracks@[i];
            let moved = Clip { start_frames: c.new_start_frames, ..t.clips@[c.clip_index as int] };
            &&& tracks_same_except(pre, post, i)
            &&& clips_updated_track(t, post.tracks@[i], c.clip_index as int, moved)
        },
        Command::UpdateEq(c) => {
            let i = spec_track_index(pre.tracks@, c.track_id);
            let t = pre.tracks@[i];
            &&& tracks_same_except(pre, post, i)
            &&& eq_updated_track(t, post.tracks@[i], c.band_index as int, c.new_params)
        },
        Command::DeleteClip(c) => {
            let i = spec_track_index(pre.tracks@, c.track_id);
            let t = pre.tracks@[i];
            &&& tracks_same_except(pre, post, i)
            &&& same_but_clips(t, post.tracks@[i])
            &&& post.tracks@[i].clips@ == t.clips@.remove(c.clip_index as int)
        },
        Command::RestoreClip(c) => {
            let i = spec_track_index(pre.tracks@, c.track_id);
            let t = pre.tracks@[i];
            &&& tracks_same_except(pre, post, i)
            &&& same_but_clips(t, post.tracks@[i])
            &&& post.tracks@[i].clips@ == t.clips@.insert(c.clip_index as int, c.clip)
        },
        Command::SplitClip(c) => {
            let i = spec_track_index(pre.tracks@, c.track_id);
            let t = pre.tracks@[i];
            let j = spec_split_index(t.clips@, c.at_frames as int);
            let pieces = t.clips@[j].spec_split(c.at_frames as int, ClipId(pre.next_id));
            &&& same_but_tracks_and_ids(pre, post)
            &&& post.next_id == pre.next_id + 1
            &&& post.tracks@.len() == pre.tracks@.len()
            &&& forall|k: int|
                0 <= k < pre.tracks@.len() && k != i ==> post.tracks@[k] == pre.tracks@[k]
            &&& same_but_clips(t, post.tracks@[i])
            &&& post.tracks@[i].clips@ == t.clips@.update(j, pieces.0).insert(j + 1, pieces.1)
        },
        Command::MergeClips(c) => {
            let i = spec_track_index(pre.tracks@, c.track_id);
            let t = pre.tracks@[i];
            let j = c.left_index as int;
            let merged = Clip::spec_merged(t.clips@[j], t.clips@[j + 1]);
            &&& tracks_same_except(pre, post, i)
            &&& same_but_clips(t, post.tracks@[i])
            &&& post.tracks@[i].clips@ == t.clips@.update(j, merged).remove(j + 1)
        },
    }
}

/// How a successful reversal relates the engine after (`post`) to the
/// engine before (`pre`).
pub open spec fn spec_undo_rel(pre: Engine, post: Engine, c: Command) -> bool {
    match c {
        Command::SetTrackGain(c) => {
            let i = spec_track_index(pre.tracks@, c.track_id);
            tracks_updated(pre, post, i, Track { gain_bits: c.old_gain_bits, ..pre.tracks@[i] })
        },
        Command::SetTrackPan(c) => {
            let i = spec_track_index(pre.tracks@, c.track_id);
            tracks_updated(pre, post, i, Track { pan_bits: c.old_pan_bits, ..pre.tracks@[i] })
        },
        Command::SetTrackMute(c) => {
            let i = spec_track_index(pre.tracks@, c.track_id);
            tracks_updated(pre, post, i, Track { muted: !c.new_state, ..pre.tracks@[i] })
        },
        Command::ToggleSolo(c) => {
            let i = spec_track_index(pre.tracks@, c.track_id);
            tracks_updated(pre, post, i, Track { solo: !pre.tracks@[i].solo, ..pre.tracks@[i] })
        },
        Command::MoveClip(c) => {
            let i = spec_track_index(pre.tracks@, c.track_id);
            let t = pre.tracks@[i];
            let moved = Clip { start_frames: c.old_start_frames, ..t.clips@[c.clip_index as int] };
            &&& tracks_same_except(pre, post, i)
            &&& clips_updated_track(t, post.tracks@[i], c.clip_index as int, moved)
        },
        Command::UpdateEq(c) => {
            let i = spec_track_index(pre.tracks@, c.track_id);
            let t = pre.tracks@[i];
            &&& tracks_same_except(pre, post, i)
            &&& eq_updated_track(t, post.tracks@[i], c.band_index as int, c.old_params)
        },
        Command::DeleteClip(c) => {
            let i = spec_track_index(pre.tracks@, c.track_id);
            let t = pre.tracks@[i];
            &&& tracks_same_except(pre, post, i)
            &&& same_but_clips(t, post.tracks@[i])
            &&& post.tracks@[i].clips@ == t.clips@.insert(c.clip_index as int, c.captured)
        },
        Command::RestoreClip(c) => {
            let i = spec_track_index(pre.tracks@, c.track_id);
            let t = pre.tracks@[i];
            &&& tracks_same_except(pre, post, i)
            &&& same_but_clips(t, post.tracks@[i])
            &&& post.tracks@[i].clips@ == t.clips@.remove(c.clip_index as int)
        },
        Command::SplitClip(c) => {
            let i = spec_track_index(pre.tracks@, c.track_id);
            let t = pre.tracks@[i];
            let tol = spec_merge_tol(pre);
            let j = spec_ending_near_index(t.clips@, c.at_frames as int, tol);
            let merged = Clip::spec_merged(t.clips@[j], t.clips@[j + 1]);
            &&& tracks_same_except(pre, post, i)
            &&& same_but_clips(t, post.tracks@[i])
            &&& post.tracks@[i].clips@ == t.clips@.update(j, merged).remove(j + 1)
        },
        Command::MergeClips(c) => {
            let i = spec_track_index(pre.tracks@, c.track_id);
            let t = pre.tracks@[i];
            let j = c.left_index as int;
            let shrunk = Clip {
                duration_frames: (t.clips@[j].duration_frames
                    - c.captured_right.duration_frames) as u64,
                ..t.clips@[j]
            };
            &&& tracks_same_except(pre, post, i)
            &&& same_but_clips(t, post.tracks@[i])
            &&& post.tracks@[i].clips@ == t.clips@.update(j, shrunk).insert(
                j + 1,
                c.captured_right,
            )
        },
    }
}

/// Whether reversing the command succeeds on `e`.
pub open spec fn spec_undo_applies(e: Engine, c: Command) -> bool {
    match c {
        Command::SetTrackGain(c) => gain_bits_valid(c.old_gain_bits) && has_track(
            e.tracks@,
            c.track_id,
        ),
        Command::SetTrackPan(c) => pan_bits_valid(c.old_pan_bits) && has_track(
            e.tracks@,
            c.track_id,
        ),
        Command::SetTrackMute(c) => has_track(e.tracks@, c.track_id),
        Command::ToggleSolo(c) => has_track(e.tracks@, c.track_id),
        Command::MoveClip(c) => {
            &&& has_track(e.tracks@, c.track_id)
            &&& c.clip_index < e.tracks@[spec_track_index(e.tracks@, c.track_id)].clips@.len()
            &&& c.old_start_frames + e.tracks@[spec_track_index(
                e.tracks@,
                c.track_id,
            )].clips@[c.clip_index as int].duration_frames < MAX_FRAMES
        },
        Command::UpdateEq(c) => {
            &&& has_track(e.tracks@, c.track_id)
            &&& c.band_index < e.tracks@[spec_track_index(e.tracks@, c.track_id)].eq@.len()
        },
        Command::DeleteClip(c) => {
            &&& has_track(e.tracks@, c.track_id)
            &&& c.clip_index <= e.tracks@[spec_track_index(e.tracks@, c.track_id)].clips@.len()
            &&& c.captured.wf()
            &&& c.captured.id.0 < e.next_id
        },
        Command::RestoreClip(c) => {
            &&& has_track(e.tracks@, c.track_id)
            &&& c.clip_index < e.tracks@[spec_track_index(e.tracks@, c.track_id)].clips@.len()
            &&& e.tracks@[spec_track_index(e.tracks@, c.track_id)].clips@[c.clip_index as int].id
                == c.clip.id
        },
        Command::SplitClip(c) => {
            let clips = e.tracks@[spec_track_index(e.tracks@, c.track_id)].clips@;
            let tol = spec_merge_tol(e);
            let j = spec_ending_near_index(clips, c.at_frames as int, tol);
            &&& has_track(e.tracks@, c.track_id)
            &&& has_ending_near(clips, c.at_frames as int, tol)
            &&& j + 1 < clips.len()
            &&& Clip::spec_can_merge(clips[j], clips[j + 1], tol)
        },
        Command::MergeClips(c) => {
            let clips = e.tracks@[spec_track_index(e.tracks@, c.track_id)].clips@;
            &&& has_track(e.tracks@, c.track_id)
            &&& c.left_index < clips.len()
            &&& clips[c.left_index as int].duration_frames > c.captured_right.duration_frames
            &&& c.captured_right.wf()
            &&& c.captured_right.id.0 < e.next_id
        },
    }
}

/// The error reported when reversing the command fails on `e`.
pub open spec fn spec_undo_error(e: Engine, c: Command) -> CommandError {
    match c {
        Command::SetTrackGain(c) => if !gain_bits_valid(c.old_gain_bits) {
            CommandError::InvalidParameter
        } else {
            CommandError::TrackNotFound
        },
        Command::SetTrackPan(c) => if !pan_bits_valid(c.old_pan_bits) {
            CommandError::InvalidParameter
        } else {
            CommandError::TrackNotFound
        },
        Command::SetTrackMute(_) => CommandError::TrackNotFound,
        Command::ToggleSolo(_) => CommandError::TrackNotFound,
        Command::MoveClip(c) => if !has_track(e.tracks@, c.track_id) {
            CommandError::TrackNotFound
        } else if c.clip_index >= e.tracks@[spec_track_index(
            e.tracks@,
            c.track_id,
        )].clips@.len() {
            CommandError::ClipNotFound
        } else {
            CommandError::InvalidParameter
        },
        Command::UpdateEq(c) => if !has_track(e.tracks@, c.track_id) {
            CommandError::TrackNotFound
        } else {
            CommandError::ClipNotFound
        },
        Command::DeleteClip(c) => if !has_track(e.tracks@, c.track_id) {
            CommandError::TrackNotFound
        } else if c.clip_index > e.tracks@[spec_track_index(e.tracks@, c.track_id)].clips@.len() {
            CommandError::ClipNotFound
        } else {
            CommandError::InvalidParameter
        },
        Command::RestoreClip(c) => if !has_track(e.tracks@, c.track_id) {
            CommandError::TrackNotFound
        } else if c.clip_index >= e.tracks@[spec_track_index(
            e.tracks@,
            c.track_id,
        )].clips@.len() {
            CommandError::ClipNotFound
        } else {
            CommandError::StaleCommand
        },
        Command::SplitClip(c) => if !has_track(e.tracks@, c.track_id) {
            CommandError::TrackNotFound
        } else if !has_ending_near(
            e.tracks@[spec_track_index(e.tracks@, c.track_id)].clips@,
            c.at_frames as int,
            spec_merge_tol(e),
        ) {
            CommandError::ClipNotFound
        } else {
            CommandError::MergeNotAdjacent
        },
        Command::MergeClips(c) => if !has_track(e.tracks@, c.track_id) {
            CommandError::TrackNotFound
        } else if c.left_index >= e.tracks@[spec_track_index(
            e.tracks@,
            c.track_id,
        )].clips@.len() {
            CommandError::ClipNotFound
        } else {
            CommandError::InvalidParameter
        },
    }
}

/// Apply the command to the engine: the whole mutation on success, no
/// change at all on failure.
pub fn execute(c: &Command, e: &mut Engine) -> (outcome: Result<(), CommandError>)
    requires
        old(e).wf(),
    ensures
        final(e).wf(),
        outcome is Ok <==> spec_applies(*old(e), *c),
        outcome is Ok ==> spec_execute_rel(*old(e), *final(e), *c),
        outcome is Err ==> *final(e) == *old(e) && outcome == Result::<(), CommandError>::Err(
            spec_error(*old(e), *c),
        ),
{
    match c {
        Command::SetTrackGain(c) => {
            if !(c.new_gain_bits <= crate::params::BITS_TWO) {
                return Err(CommandError::InvalidParameter);
            }
            match find_track(&e.tracks, c.track_id) {
                Some(i) => {
                    let track = &mut e.tracks[i];
                    track.gain_bits = c.new_gain_bits;
                    proof {
                        lemma_wf_after_track_update(*old(e), *e, i as int);
                    }
                    Ok(())
                },
                None => Err(CommandError::TrackNotFound),
            }
        },
        Command::SetTrackPan(c) => {
            if !(c.new_pan_bits <= crate::params::BITS_ONE || (0x8000_0000 <= c.new_pan_bits
                && c.new_pan_bits <= crate::params::BITS_NEG_ONE)) {
                return Err(CommandError::InvalidParameter);
            }
            match find_track(&e.tracks, c.track_id) {
                Some(i) => {
                    let track = &mut e.tracks[i];
                    track.pan_bits = c.new_pan_bits;
                    proof {
                        lemma_wf_after_track_update(*old(e), *e, i as int);
                    }
                    Ok(())
                },
                None => Err(CommandError::TrackNotFound),
            }
        },
        Command::SetTrackMute(c) => {
            match find_track(&e.tracks, c.track_id) {
                Some(i) => {
                    let track = &mut e.tracks[i];
                    track.muted = c.new_state;
                    proof {
                        lemma_wf_after_track_update(*old(e), *e, i as int);
                    }
                    Ok(())
                },
                None => Err(CommandError::TrackNotFound),
            }
        },
        Command::ToggleSolo(c) => {
            match find_track(&e.tracks, c.track_id) {
                Some(i) => {
                    let track = &mut e.tracks[i];
                    track.solo = !track.solo;
                    proof {
                        lemma_wf_after_track_update(*old(e), *e, i as int);
                    }
                    Ok(())
                },
                None => Err(CommandError::TrackNotFound),
            }
        },
        Command::MoveClip(c) => move_clip_to(e, c.track_id, c.clip_index, c.new_start_frames),
        Command::UpdateEq(c) => update_eq_band(e, c.track_id, c.band_index, c.new_params),
        Command::DeleteClip(c) => remove_clip_at(e, c.track_id, c.clip_index, c.captured.id),
        Command::RestoreClip(c) => insert_clip_at(e, c.track_id, c.clip_index, &c.clip),
        Command::SplitClip(c) => split_clip_at(e, c.track_id, c.at_frames),
        Command::MergeClips(c) => merge_clips_at(e, c.track_id, c.left_index, &c.captured_right),
    }
}

/// Reverse the command on the engine: the whole restoration on
/// success, no change at all on failure.
pub fn undo(c: &Command, e: &mut Engine) -> (outcome: Result<(), CommandError>)
    requires
        old(e).wf(),
    ensures
        final(e).wf(),
        outcome is Ok <==> spec_undo_applies(*old(e), *c),
        outcome is Ok ==> spec_undo_rel(*old(e), *final(e), *c),
        outcome is Err ==> *final(e) == *old(e) && outcome == Result::<(), CommandError>::Err(
            spec_undo_error(*old(e), *c),
        ),
{
    match c {
        Command::SetTrackGain(c) => {
            if !(c.old_gain_bits <= crate::params::BITS_TWO) {
                return Err(CommandError::InvalidParameter);
            }
            match find_track(&e.tracks, c.track_id) {
                Some(i) => {
                    let track = &mut e.tracks[i];
                    track.gain_bits = c.old_gain_bits;
                    proof {
                        lemma_wf_after_track_update(*old(e), *e, i as int);
                    }
                    Ok(())
                },
                None => Err(CommandError::TrackNotFound),
            }
        },
        Command::SetTrackPan(c) => {
            if !(c.old_pan_bits <= crate::params::BITS_ONE || (0x8000_0000 <= c.old_pan_bits
                && c.old_pan_bits <= crate::params::BITS_NEG_ONE)) {
                return Err(CommandError::InvalidParameter);
            }
            match find_track(&e.tracks, c.track_id) {
                Some(i) => {
                    let track = &mut e.tracks[i];
                    track.pan_bits = c.old_pan_bits;
                    proof {
                        lemma_wf_after_track_update(*old(e), *e, i as int);
                    }
                    Ok(())
                },
                None => Err(CommandError::TrackNotFound),
            }
        },
        Command::SetTrackMute(c) => {
            match find_track(&e.tracks, c.track_id) {
                Some(i) => {
                    let track = &mut e.tracks[i];
                    track.muted = !c.new_state;
                    proof {
                        lemma_wf_after_track_update(*old(e), *e, i as int);
                    }
                    Ok(())
                },
                None => Err(CommandError::TrackNotFound),
            }
        },
        Command::ToggleSolo(c) => {
            match find_track(&e.tracks, c.track_id) {
                Some(i) => {
                    let track = &mut e.tracks[i];
                    track.solo = !track.solo;
                    proof {
                        lemma_wf_after_track_update(*old(e), *e, i as int);
                    }
                    Ok(())
                },
                None => Err(CommandError::TrackNotFound),
            }
        },
        Command::MoveClip(c) => move_clip_to(e, c.track_id, c.clip_index, c.old_start_frames),
        Command::UpdateEq(c) => update_eq_band(e, c.track_id, c.band_index, c.old_params),
        Command::DeleteClip(c) => insert_clip_at(e, c.track_id, c.clip_index, &c.captured),
        Command::RestoreClip(c) => remove_clip_at(e, c.track_id, c.clip_index, c.clip.id),
        Command::SplitClip(c) => merge_split_back(e, c.track_id, c.at_frames),
        Command::MergeClips(c) => unmerge_clips(e, c.track_id, c.left_index, &c.captured_right),
    }
}

/// Set the start time of the clip at `clip_index` of the track carrying
/// `track_id`.
fn move_clip_to(e: &mut Engine, track_id: TrackId, clip_index: usize, start: u64) -> (outcome:
    Result<(), CommandError>)
    requires
        old(e).wf(),
    ensures
        final(e).wf(),
        outcome is Ok <==> ({
            &&& has_track(old(e).tracks@, track_id)
            &&& clip_index < old(e).tracks@[spec_track_index(
                old(e).tracks@,
                track_id,
            )].clips@.len()
            &&& start + old(e).tracks@[spec_track_index(old(e).tracks@, track_id)].clips@[
                clip_index as int].duration_frames < MAX_FRAMES
        }),
        outcome is Ok ==> ({
            let i = spec_track_index(old(e).tracks@, track_id);
            let t = old(e).tracks@[i];
            let moved = Clip { start_frames: start, ..t.clips@[clip_index as int] };
            &&& tracks_same_except(*old(e), *final(e), i)
            &&& clips_updated_track(t, final(e).tracks@[i], clip_index as int, moved)
        }),
        outcome is Err ==> *final(e) == *old(e) && outcome
            == Result::<(), CommandError>::Err(
            if !has_track(old(e).tracks@, track_id) {
                CommandError::TrackNotFound
            } else if clip_index >= old(e).tracks@[spec_track_index(
                old(e).tracks@,
                track_id,
            )].clips@.len() {
                CommandError::ClipNotFound
            } else {
                CommandError::InvalidParameter
            },
        ),
{
    match find_track(&e.tracks, track_id) {
        Some(i) => {
            if clip_index >= e.tracks[i].clips.len() {
                return Err(CommandError::ClipNotFound);
            }
            let duration = e.tracks[i].clips[clip_index].duration_frames;
            proof {
                assert(old(e).tracks@[i as int].clips@[clip_index as int].wf());
            }
            if start >= MAX_FRAMES - duration {
                return Err(CommandError::InvalidParameter);
            }
            let track = &mut e.tracks[i];
            let clip = &mut track.clips[clip_index];
            clip.start_frames = start;
            proof {
                let t = old(e).tracks@[i as int];
                let moved = Clip { start_frames: start, ..t.clips@[clip_index as int] };
                assert(moved =~= (Clip { start_frames: start, ..t.clips@[clip_index as int] }));
                assert(e.tracks@[i as int].clips@ =~= t.clips@.update(clip_index as int, moved));
                assert(e.tracks@[i as int].wf()) by {
                    assert(forall|k: int|
                        0 <= k < e.tracks@[i as int].clips@.len() ==> (
                        #[trigger] e.tracks@[i as int].clips@[k]).wf());
                }
                lemma_wf_after_track_update(*old(e), *e, i as int);
            }
            Ok(())
        },
        None => Err(CommandError::TrackNotFound),
    }
}

/// Publish `params` to the EQ band at `band_index` of the track
/// carrying `track_id`.
fn update_eq_band(e: &mut Engine, track_id: TrackId, band_index: usize, params: EqParams) -> (
    outcome: Result<(), CommandError>)
    requires
        old(e).wf(),
    ensures
        final(e).wf(),
        outcome is Ok <==> ({
            &&& has_track(old(e).tracks@, track_id)
            &&& band_index < old(e).tracks@[spec_track_index(old(e).tracks@, track_id)].eq@.len()
        }),
        outcome is Ok ==> ({
            let i = spec_track_index(old(e).tracks@, track_id);
            let t = old(e).tracks@[i];
            &&& tracks_same_except(*old(e), *final(e), i)
            &&& eq_updated_track(t, final(e).tracks@[i], band_index as int, params)
        }),
        outcome is Err ==> *final(e) == *old(e) && outcome
            == Result::<(), CommandError>::Err(
            if !has_track(old(e).tracks@, track_id) {
                CommandError::TrackNotFound
            } else {
                CommandError::ClipNotFound
            },
        ),
{
    match find_track(&e.tracks, track_id) {
        Some(i) => {
            if band_index >= e.tracks[i].eq.len() {
                return Err(CommandError::ClipNotFound);
            }
            let track = &mut e.tracks[i];
            let band = &mut track.eq[band_index];
            *band = params;
            proof {
                let t = old(e).tracks@[i as int];
                assert(e.tracks@[i as int].eq@ =~= t.eq@.update(band_index as int, params));
                lemma_wf_after_track_update(*old(e), *e, i as int);
            }
            Ok(())
        },
        None => Err(CommandError::TrackNotFound),
    }
}

/// Index of the first clip the split point falls strictly inside, or
/// `None` when there is none.
fn find_splittable(clips: &Vec<Clip>, at: u64) -> (found: Option<usize>)
    requires
        forall|k: int| 0 <= k < clips@.len() ==> (#[trigger] clips@[k]).wf(),
    ensures
        match found {
            Some(j) => is_first_splittable(clips@, at as int, j as int) && has_splittable(
                clips@,
                at as int,
            ) && spec_split_index(clips@, at as int) == j as int,
            None => !has_splittable(clips@, at as int),
        },
{
    let mut i: usize = 0;
    while i < clips.len()
        invariant
            forall|k: int| 0 <= k < clips@.len() ==> (#[trigger] clips@[k]).wf(),
            i <= clips@.len(),
            forall|k: int| 0 <= k < i ==> !splits_clip(#[trigger] clips@[k], at as int),
        decreases clips@.len() - i,
    {
        let c = &clips[i];
        if c.start_frames < at && at < c.start_frames + c.duration_frames {
            proof {
                assert(is_first_splittable(clips@, at as int, i as int));
                assert forall|k: int| is_first_splittable(clips@, at as int, k) implies k
                    == i as int by {
                    if k < i as int {
                        assert(!splits_clip(clips@[k], at as int));
                    }
                    if k > i as int {
                        assert(!splits_clip(clips@[i as int], at as int));
                    }
                }
            }
            return Some(i);
        }
        i = i + 1;
    }
    proof {
        if has_splittable(clips@, at as int) {
            let k = choose|k: int| is_first_splittable(clips@, at as int, k);
            assert(!splits_clip(clips@[k], at as int));
        }
    }
    None
}

/// Index of the first clip ending within `tol` frames of `at`, or
/// `None` when there is none.
fn find_ending_near(clips: &Vec<Clip>, at: u64, tol: u64) -> (found: Option<usize>)
    requires
        forall|k: int| 0 <= k < clips@.len() ==> (#[trigger] clips@[k]).wf(),
    ensures
        match found {
            Some(j) => is_first_ending_near(clips@, at as int, tol as int, j as int)
                && has_ending_near(clips@, at as int, tol as int) && spec_ending_near_index(
                clips@,
                at as int,
                tol as int,
            ) == j as int,
            None => !has_ending_near(clips@, at as int, tol as int),
        },
{
    let mut i: usize = 0;
    while i < clips.len()
        invariant
            forall|k: int| 0 <= k < clips@.len() ==> (#[trigger] clips@[k]).wf(),
            i <= clips@.len(),
            forall|k: int| 0 <= k < i ==> !ends_near(#[trigger] clips@[k], at as int, tol as int),
        decreases clips@.len() - i,
    {
        let c = &clips[i];
        let end: u64 = c.start_frames + c.duration_frames;
        let near = if end >= at {
            end - at <= tol
        } else {
            at - end <= tol
        };
        if near {
            proof {
                assert(is_first_ending_near(clips@, at as int, tol as int, i as int));
                assert forall|k: int| is_first_ending_near(clips@, at as int, tol as int, k)
                    implies k == i as int by {
                    if k < i as int {
                        assert(!ends_near(clips@[k], at as int, tol as int));
                    }
                    if k > i as int {
                        assert(!ends_near(clips@[i as int], at as int, tol as int));
                    }
                }
            }
            return Some(i);
        }
        i = i + 1;
    }
    proof {
        if has_ending_near(clips@, at as int, tol as int) {
            let k = choose|k: int| is_first_ending_near(clips@, at as int, tol as int, k);
            assert(!ends_near(clips@[k], at as int, tol as int));
        }
    }
    None
}

/// Remove the clip at `clip_index` of the track carrying `track_id`,
/// after checking it is the clip the command captured.
fn remove_clip_at(e: &mut Engine, track_id: TrackId, clip_index: usize, expected: ClipId) -> (
    outcome: Result<(), CommandError>)
    requires
        old(e).wf(),
    ensures
        final(e).wf(),
        outcome is Ok <==> ({
            &&& has_track(old(e).tracks@, track_id)
            &&& clip_index < old(e).tracks@[spec_track_index(
                old(e).tracks@,
                track_id,
            )].clips@.len()
            &&& old(e).tracks@[spec_track_index(old(e).tracks@, track_id)].clips@[
                clip_index as int].id == expected
        }),
        outcome is Ok ==> ({
            let i = spec_track_index(old(e).tracks@, track_id);
            let t = old(e).tracks@[i];
            &&& tracks_same_except(*old(e), *final(e), i)
            &&& same_but_clips(t, final(e).tracks@[i])
            &&& final(e).tracks@[i].clips@ == t.clips@.remove(clip_index as int)
        }),
        outcome is Err ==> *final(e) == *old(e) && outcome
            == Result::<(), CommandError>::Err(
            if !has_track(old(e).tracks@, track_id) {
                CommandError::TrackNotFound
            } else if clip_index >= old(e).tracks@[spec_track_index(
                old(e).tracks@,
                track_id,
            )].clips@.len() {
                CommandError::ClipNotFound
            } else {
                CommandError::StaleCommand
            },
        ),
{
    match find_track(&e.tracks, track_id) {
        Some(i) => {
            if clip_index >= e.tracks[i].clips.len() {
                return Err(CommandError::ClipNotFound);
            }
            if !(e.tracks[i].clips[clip_index].id == expected) {
                return Err(CommandError::StaleCommand);
            }
            let track = &mut e.tracks[i];
            track.clips.remove(clip_index);
            proof {
                let t = old(e).tracks@[i as int];
                t.clips@.remove_ensures(clip_index as int);
                assert(e.tracks@[i as int].wf()) by {
                    assert forall|k: int| 0 <= k < e.tracks@[i as int].clips@.len() implies (
                    #[trigger] e.tracks@[i as int].clips@[k]).wf() by {
                        if k < clip_index as int {
                            assert(t.clips@[k].wf());
                        } else {
                            assert(t.clips@[k + 1].wf());
                        }
                    }
                }
                assert forall|k: int| 0 <= k < e.tracks@[i as int].clips@.len() implies (
                #[trigger] e.tracks@[i as int].clips@[k]).id.0 < e.next_id by {
                    if k < clip_index as int {
                        assert(t.clips@[k].id.0 < old(e).next_id);
                    } else {
                        assert(t.clips@[k + 1].id.0 < old(e).next_id);
                    }
                }
                lemma_wf_after_clips_change(*old(e), *e, i as int);
            }
            Ok(())
        },
        None => Err(CommandError::TrackNotFound),
    }
}

/// Insert a captured clip at `clip_index` of the track carrying
/// `track_id`, after checking the capture is well formed and its
/// identifier was allocated by this engine.
fn insert_clip_at(e: &mut Engine, track_id: TrackId, clip_index: usize, clip: &Clip) -> (outcome:
    Result<(), CommandError>)
    requires
        old(e).wf(),
    ensures
        final(e).wf(),
        outcome is Ok <==> ({
            &&& has_track(old(e).tracks@, track_id)
            &&& clip_index <= old(e).tracks@[spec_track_index(
                old(e).tracks@,
                track_id,
            )].clips@.len()
            &&& clip.wf()
            &&& clip.id.0 < old(e).next_id
        }),
        outcome is Ok ==> ({
            let i = spec_track_index(old(e).tracks@, track_id);
            let t = old(e).tracks@[i];
            &&& tracks_same_except(*old(e), *final(e), i)
            &&& same_but_clips(t, final(e).tracks@[i])
            &&& final(e).tracks@[i].clips@ == t.clips@.insert(clip_index as int, *clip)
        }),
        outcome is Err ==> *final(e) == *old(e) && outcome
            == Result::<(), CommandError>::Err(
            if !has_track(old(e).tracks@, track_id) {
                CommandError::TrackNotFound
            } else if clip_index > old(e).tracks@[spec_track_index(
                old(e).tracks@,
                track_id,
            )].clips@.len() {
                CommandError::ClipNotFound
            } else {
                CommandError::InvalidParameter
            },
        ),
{
    match find_track(&e.tracks, track_id) {
        Some(i) => {
            if clip_index > e.tracks[i].clips.len() {
                return Err(CommandError::ClipNotFound);
            }
            let valid = clip.duration_frames > 0 && clip.start_frames < MAX_FRAMES
                && clip.duration_frames < MAX_FRAMES && clip.start_frames + clip.duration_frames
                < MAX_FRAMES && clip.offset_frames < MAX_FRAMES && clip.offset_frames
                + clip.duration_frames < MAX_FRAMES && clip.source_duration_frames < MAX_FRAMES
                && clip.id.0 < e.next_id;
            if !valid {
                return Err(CommandError::InvalidParameter);
            }
            let copy = clip.duplicate();
            let track = &mut e.tracks[i];
            track.clips.insert(clip_index, copy);
            proof {
                let t = old(e).tracks@[i as int];
                t.clips@.insert_ensures(clip_index as int, *clip);
                assert(e.tracks@[i as int].wf()) by {
                    assert forall|k: int| 0 <= k < e.tracks@[i as int].clips@.len() implies (
                    #[trigger] e.tracks@[i as int].clips@[k]).wf() by {
                        if k < clip_index as int {
                            assert(t.clips@[k].wf());
                        } else if k == clip_index as int {
                            assert(e.tracks@[i as int].clips@[k] == *clip);
                        } else {
                            assert(t.clips@[k - 1].wf());
                        }
                    }
                }
                assert forall|k: int| 0 <= k < e.tracks@[i as int].clips@.len() implies (
                #[trigger] e.tracks@[i as int].clips@[k]).id.0 < e.next_id by {
                    if k < clip_index as int {
                        assert(t.clips@[k].id.0 < old(e).next_id);
                    } else if k > clip_index as int {
                        assert(t.clips@[k - 1].id.0 < old(e).next_id);
                    }
                }
                lemma_wf_after_clips_change(*old(e), *e, i as int);
            }
            Ok(())
        },
        None => Err(CommandError::TrackNotFound),
    }
}

/// Cut the first clip lying under `at` in two at that frame, giving
/// the right piece a fresh identifier.
fn split_clip_at(e: &mut Engine, track_id: TrackId, at: u64) -> (outcome: Result<
    (),
    CommandError,
>)
    requires
        old(e).wf(),
    ensures
        final(e).wf(),
        outcome is Ok <==> ({
            &&& has_track(old(e).tracks@, track_id)
            &&& has_splittable(
                old(e).tracks@[spec_track_index(old(e).tracks@, track_id)].clips@,
                at as int,
            )
            &&& old(e).next_id < u32::MAX
        }),
        outcome is Ok ==> ({
            let i = spec_track_index(old(e).tracks@, track_id);
            let t = old(e).tracks@[i];
            let j = spec_split_index(t.clips@, at as int);
            let pieces = t.clips@[j].spec_split(at as int, ClipId(old(e).next_id));
            &&& same_but_tracks_and_ids(*old(e), *final(e))
            &&& final(e).next_id == old(e).next_id + 1
            &&& final(e).tracks@.len() == old(e).tracks@.len()
            &&& forall|k: int|
                0 <= k < old(e).tracks@.len() && k != i ==> final(e).tracks@[k] == old(
                    e,
                ).tracks@[k]
            &&& same_but_clips(t, final(e).tracks@[i])
            &&& final(e).tracks@[i].clips@ == t.clips@.update(j, pieces.0).insert(
                j + 1,
                pieces.1,
            )
        }),
        outcome is Err ==> *final(e) == *old(e) && outcome
            == Result::<(), CommandError>::Err(
            if !has_track(old(e).tracks@, track_id) {
                CommandError::TrackNotFound
            } else if !has_splittable(
                old(e).tracks@[spec_track_index(old(e).tracks@, track_id)].clips@,
                at as int,
            ) {
                CommandError::SplitOutsideClip
            } else {
                CommandError::IdsExhausted
            },
        ),
{
    match find_track(&e.tracks, track_id) {
        Some(i) => {
            match find_splittable(&e.tracks[i].clips, at) {
                Some(j) => {
                    if e.next_id == u32::MAX {
                        return Err(CommandError::IdsExhausted);
                    }
                    let right_id = ClipId(e.next_id);
                    bump_next_id(e);
                    let (left, right) = e.tracks[i].clips[j].split(at, right_id);
                    let track = &mut e.tracks[i];
                    let slot = &mut track.clips[j];
                    *slot = left;
                    track.clips.insert(j + 1, right);
                    proof {
                        lemma_wf_after_split(*old(e), *e, i as int, j as int, at as int);
                    }
                    Ok(())
                },
                None => Err(CommandError::SplitOutsideClip),
            }
        },
        None => Err(CommandError::TrackNotFound),
    }
}

/// Advance the identifier counter by one.
fn bump_next_id(e: &mut Engine)
    requires
        old(e).next_id < u32::MAX,
    ensures
        *final(e) == (Engine { next_id: (old(e).next_id + 1) as u32, ..*old(e) }),
{
    e.next_id = e.next_id + 1;
}

/// Merge the clip at `left_index` with its right neighbour, after
/// checking the neighbour is the clip the command captured.
fn merge_clips_at(e: &mut Engine, track_id: TrackId, left_index: usize, expected_right: &Clip) -> (
    outcome: Result<(), CommandError>)
    requires
        old(e).wf(),
    ensures
        final(e).wf(),
        outcome is Ok <==> ({
            let clips = old(e).tracks@[spec_track_index(old(e).tracks@, track_id)].clips@;
            &&& has_track(old(e).tracks@, track_id)
            &&& left_index + 1 < clips.len()
            &&& clips[left_index + 1].id == expected_right.id
            &&& Clip::spec_can_merge(
                clips[left_index as int],
                clips[left_index + 1],
                spec_merge_tol(*old(e)),
            )
        }),
        outcome is Ok ==> ({
            let i = spec_track_index(old(e).tracks@, track_id);
            let t = old(e).tracks@[i];
            let j = left_index as int;
            let merged = Clip::spec_merged(t.clips@[j], t.clips@[j + 1]);
            &&& tracks_same_except(*old(e), *final(e), i)
            &&& same_but_clips(t, final(e).tracks@[i])
            &&& final(e).tracks@[i].clips@ == t.clips@.update(j, merged).remove(j + 1)
        }),
        outcome is Err ==> *final(e) == *old(e) && outcome
            == Result::<(), CommandError>::Err(
            if !has_track(old(e).tracks@, track_id) {
                CommandError::TrackNotFound
            } else if left_index + 1 >= old(e).tracks@[spec_track_index(
                old(e).tracks@,
                track_id,
            )].clips@.len() {
                CommandError::ClipNotFound
            } else if old(e).tracks@[spec_track_index(old(e).tracks@, track_id)].clips@[
                left_index + 1].id != expected_right.id {
                CommandError::StaleCommand
            } else {
                CommandError::MergeNotAdjacent
            },
        ),
{
    match find_track(&e.tracks, track_id) {
        Some(i) => {
            if left_index >= usize::MAX - 1 || left_index + 1 >= e.tracks[i].clips.len() {
                return Err(CommandError::ClipNotFound);
            }
            if !(e.tracks[i].clips[left_index + 1].id == expected_right.id) {
                return Err(CommandError::StaleCommand);
            }
            let tol: u64 = (e.sample_rate / 1000) as u64;
            if !Clip::can_merge(
                &e.tracks[i].clips[left_index],
                &e.tracks[i].clips[left_index + 1],
                tol,
            ) {
                return Err(CommandError::MergeNotAdjacent);
            }
            merge_pair(e, i, left_index);
            Ok(())
        },
        None => Err(CommandError::TrackNotFound),
    }
}

/// Join the clip ending at `at` (the point of an earlier split) back
/// with its right neighbour.
fn merge_split_back(e: &mut Engine, track_id: TrackId, at: u64) -> (outcome: Result<
    (),
    CommandError,
>)
    requires
        old(e).wf(),
    ensures
        final(e).wf(),
        outcome is Ok <==> ({
            let clips = old(e).tracks@[spec_track_index(old(e).tracks@, track_id)].clips@;
            let tol = spec_merge_tol(*old(e));
            let j = spec_ending_near_index(clips, at as int, tol);
            &&& has_track(old(e).tracks@, track_id)
            &&& has_ending_near(clips, at as int, tol)
            &&& j + 1 < clips.len()
            &&& Clip::spec_can_merge(clips[j], clips[j + 1], tol)
        }),
        outcome is Ok ==> ({
            let i = spec_track_index(old(e).tracks@, track_id);
            let t = old(e).tracks@[i];
            let tol = spec_merge_tol(*old(e));
            let j = spec_ending_near_index(t.clips@, at as int, tol);
            let merged = Clip::spec_merged(t.clips@[j], t.clips@[j + 1]);
            &&& tracks_same_except(*old(e), *final(e), i)
            &&& same_but_clips(t, final(e).tracks@[i])
            &&& final(e).tracks@[i].clips@ == t.clips@.update(j, merged).remove(j + 1)
        }),
        outcome is Err ==> *final(e) == *old(e) && outcome
            == Result::<(), CommandError>::Err(
            if !has_track(old(e).tracks@, track_id) {
                CommandError::TrackNotFound
            } else if !has_ending_near(
                old(e).tracks@[spec_track_index(old(e).tracks@, track_id)].clips@,
                at as int,
                spec_merge_tol(*old(e)),
            ) {
                CommandError::ClipNotFound
            } else {
                CommandError::MergeNotAdjacent
            },
        ),
{
    let tol: u64 = (e.sample_rate / 1000) as u64;
    match find_track(&e.tracks, track_id) {
        Some(i) => {
            match find_ending_near(&e.tracks[i].clips, at, tol) {
                Some(j) => {
                    if j >= usize::MAX - 1 || j + 1 >= e.tracks[i].clips.len() {
                        return Err(CommandError::MergeNotAdjacent);
                    }
                    if !Clip::can_merge(&e.tracks[i].clips[j], &e.tracks[i].clips[j + 1], tol) {
                        return Err(CommandError::MergeNotAdjacent);
                    }
                    merge_pair(e, i, j);
                    Ok(())
                },
                None => Err(CommandError::ClipNotFound),
            }
        },
        None => Err(CommandError::TrackNotFound),
    }
}

/// Join the clips at `j` and `j + 1` of track `i`, their merge
/// preconditions already checked.
fn merge_pair(e: &mut Engine, i: usize, j: usize)
    requires
        old(e).wf(),
        i < old(e).tracks@.len(),
        j + 1 < old(e).tracks@[i as int].clips@.len(),
        Clip::spec_can_merge(
            old(e).tracks@[i as int].clips@[j as int],
            old(e).tracks@[i as int].clips@[j + 1],
            spec_merge_tol(*old(e)),
        ),
    ensures
        final(e).wf(),
        ({
            let t = old(e).tracks@[i as int];
            let merged = Clip::spec_merged(t.clips@[j as int], t.clips@[j + 1]);
            &&& tracks_same_except(*old(e), *final(e), i as int)
            &&& same_but_clips(t, final(e).tracks@[i as int])
            &&& final(e).tracks@[i as int].clips@ == t.clips@.update(j as int, merged).remove(
                j + 1,
            )
        }),
{
    let merged = e.tracks[i].clips[j].merged_with(&e.tracks[i].clips[j + 1]);
    let track = &mut e.tracks[i];
    let slot = &mut track.clips[j];
    *slot = merged;
    track.clips.remove(j + 1);
    proof {
        let t = old(e).tracks@[i as int];
        let mid = t.clips@.update(j as int, Clip::spec_merged(t.clips@[j as int], t.clips@[j + 1]));
        mid.remove_ensures(j + 1);
        assert(e.tracks@[i as int].wf()) by {
            assert forall|k: int| 0 <= k < e.tracks@[i as int].clips@.len() implies (
            #[trigger] e.tracks@[i as int].clips@[k]).wf() by {
                if k < j + 1 {
                    assert(e.tracks@[i as int].clips@[k] == mid[k]);
                } else {
                    assert(e.tracks@[i as int].clips@[k] == mid[k + 1]);
                    assert(mid[k + 1] == t.clips@[k + 1]);
                }
            }
        }
        assert forall|k: int| 0 <= k < e.tracks@[i as int].clips@.len() implies (
        #[trigger] e.tracks@[i as int].clips@[k]).id.0 < e.next_id by {
            if k < j + 1 {
                assert(e.tracks@[i as int].clips@[k] == mid[k]);
                if k != j as int {
                    assert(t.clips@[k].id.0 < old(e).next_id);
                } else {
                    assert(t.clips@[k].id.0 < old(e).next_id);
                }
            } else {
                assert(e.tracks@[i as int].clips@[k] == mid[k + 1]);
                assert(t.clips@[k + 1].id.0 < old(e).next_id);
            }
        }
        lemma_wf_after_clips_change(*old(e), *e, i as int);
    }
}

/// Shrink a merged clip back to its left piece and re-insert the
/// captured right piece beside it.
fn unmerge_clips(e: &mut Engine, track_id: TrackId, left_index: usize, right: &Clip) -> (outcome:
    Result<(), CommandError>)
    requires
        old(e).wf(),
    ensures
        final(e).wf(),
        outcome is Ok <==> ({
            let clips = old(e).tracks@[spec_track_index(old(e).tracks@, track_id)].clips@;
            &&& has_track(old(e).tracks@, track_id)
            &&& left_index < clips.len()
            &&& clips[left_index as int].duration_frames > right.duration_frames
            &&& right.wf()
            &&& right.id.0 < old(e).next_id
        }),
        outcome is Ok ==> ({
            let i = spec_track_index(old(e).tracks@, track_id);
            let t = old(e).tracks@[i];
            let j = left_index as int;
            let shrunk = Clip {
                duration_frames: (t.clips@[j].duration_frames - right.duration_frames) as u64,
                ..t.clips@[j]
            };
            &&& tracks_same_except(*old(e), *final(e), i)
            &&& same_but_clips(t, final(e).tracks@[i])
            &&& final(e).tracks@[i].clips@ == t.clips@.update(j, shrunk).insert(j + 1, *right)
        }),
        outcome is Err ==> *final(e) == *old(e) && outcome
            == Result::<(), CommandError>::Err(
            if !has_track(old(e).tracks@, track_id) {
                CommandError::TrackNotFound
            } else if left_index >= old(e).tracks@[spec_track_index(
                old(e).tracks@,
                track_id,
            )].clips@.len() {
                CommandError::ClipNotFound
            } else {
                CommandError::InvalidParameter
            },
        ),
{
    match find_track(&e.tracks, track_id) {
        Some(i) => {
            if left_index >= e.tracks[i].clips.len() {
                return Err(CommandError::ClipNotFound);
            }
            let valid = right.duration_frames > 0 && right.start_frames < MAX_FRAMES
                && right.duration_frames < MAX_FRAMES && right.start_frames
                + right.duration_frames < MAX_FRAMES && right.offset_frames < MAX_FRAMES
                && right.offset_frames + right.duration_frames < MAX_FRAMES
                && right.source_duration_frames < MAX_FRAMES && right.id.0 < e.next_id
                && e.tracks[i].clips[left_index].duration_frames > right.duration_frames;
            if !valid {
                return Err(CommandError::InvalidParameter);
            }
            let copy = right.duplicate();
            let track = &mut e.tracks[i];
            let slot = &mut track.clips[left_index];
            slot.duration_frames = slot.duration_frames - copy.duration_frames;
            track.clips.insert(left_index + 1, copy);
            proof {
                let t = old(e).tracks@[i as int];
                let j = left_index as int;
                let shrunk = Clip {
                    duration_frames: (t.clips@[j].duration_frames - right.duration_frames) as u64,
                    ..t.clips@[j]
                };
                let mid = t.clips@.update(j, shrunk);
                mid.insert_ensures(j + 1, *right);
                assert(e.tracks@[i as int].clips@ =~= mid.insert(j + 1, *right));
                assert(shrunk.wf()) by {
                    assert(t.clips@[j].wf());
                }
                assert(e.tracks@[i as int].wf()) by {
                    assert forall|k: int| 0 <= k < e.tracks@[i as int].clips@.len() implies (
                    #[trigger] e.tracks@[i as int].clips@[k]).wf() by {
                        if k <= j {
                            assert(e.tracks@[i as int].clips@[k] == mid[k]);
                        } else if k == j + 1 {
                            assert(e.tracks@[i as int].clips@[k] == *right);
                        } else {
                            assert(e.tracks@[i as int].clips@[k] == mid[k - 1]);
                            assert(mid[k - 1] == t.clips@[k - 1]);
                        }
                    }
                }
                assert forall|k: int| 0 <= k < e.tracks@[i as int].clips@.len() implies (
                #[trigger] e.tracks@[i as int].clips@[k]).id.0 < e.next_id by {
                    if k <= j {
                        assert(e.tracks@[i as int].clips@[k] == mid[k]);
                        assert(t.clips@[k].id.0 < old(e).next_id);
                    } else if k > j + 1 {
                        assert(e.tracks@[i as int].clips@[k] == mid[k - 1]);
                        assert(t.clips@[k - 1].id.0 < old(e).next_id);
                    }
                }
                lemma_wf_after_clips_change(*old(e), *e, i as int);
            }
            Ok(())
        },
        None => Err(CommandError::TrackNotFound),
    }
}

/// After a split's two vector operations, the track is well formed and
/// the whole engine with it.
proof fn lemma_wf_after_split(pre: Engine, post: Engine, i: int, j: int, at: int)
    requires
        pre.wf(),
        0 <= i < pre.tracks@.len(),
        0 <= j < pre.tracks@[i].clips@.len(),
        splits_clip(pre.tracks@[i].clips@[j], at),
        pre.next_id < u32::MAX,
        post.next_id == pre.next_id + 1,
        same_but_tracks_and_ids(pre, post),
        post.tracks@.len() == pre.tracks@.len(),
        forall|k: int| 0 <= k < pre.tracks@.len() && k != i ==> post.tracks@[k] == pre.tracks@[k],
        same_but_clips(pre.tracks@[i], post.tracks@[i]),
        ({
            let t = pre.tracks@[i];
            let pieces = t.clips@[j].spec_split(at, ClipId(pre.next_id));
            post.tracks@[i].clips@ == t.clips@.update(j, pieces.0).insert(j + 1, pieces.1)
        }),
    ensures
        post.wf(),
{
    let t = pre.tracks@[i];
    let pieces = t.clips@[j].spec_split(at, ClipId(pre.next_id));
    let mid = t.clips@.update(j, pieces.0);
    mid.insert_ensures(j + 1, pieces.1);
    assert(t.clips@[j].wf());
    assert(pieces.0.wf());
    assert(pieces.1.wf());
    assert(post.tracks@[i].wf()) by {
        assert forall|k: int| 0 <= k < post.tracks@[i].clips@.len() implies (
        #[trigger] post.tracks@[i].clips@[k]).wf() by {
            if k <= j {
                assert(post.tracks@[i].clips@[k] == mid[k]);
            } else if k == j + 1 {
                assert(post.tracks@[i].clips@[k] == pieces.1);
            } else {
                assert(post.tracks@[i].clips@[k] == mid[k - 1]);
                assert(mid[k - 1] == t.clips@[k - 1]);
            }
        }
    }
    assert forall|k: int| 0 <= k < post.tracks@[i].clips@.len() implies (
    #[trigger] post.tracks@[i].clips@[k]).id.0 < post.next_id by {
        if k <= j {
            assert(post.tracks@[i].clips@[k] == mid[k]);
            assert(t.clips@[k].id.0 < pre.next_id);
        } else if k == j + 1 {
            assert(post.tracks@[i].clips@[k].id.0 == pre.next_id);
        } else {
            assert(post.tracks@[i].clips@[k] == mid[k - 1]);
            assert(t.clips@[k - 1].id.0 < pre.next_id);
        }
    }
    lemma_wf_after_clips_change(pre, post, i);
}

/// Replacing one track's clip list with well-formed clips whose
/// identifiers lie below the (possibly advanced) counter keeps the
/// engine well formed.
proof fn lemma_wf_after_clips_change(pre: Engine, post: Engine, i: int)
    requires
        pre.wf(),
        0 <= i < pre.tracks@.len(),
        same_but_tracks_and_ids(pre, post),
        post.next_id >= pre.next_id,
        post.tracks@.len() == pre.tracks@.len(),
        forall|j: int| 0 <= j < pre.tracks@.len() && j != i ==> post.tracks@[j] == pre.tracks@[j],
        post.tracks@[i].wf(),
        post.tracks@[i].id == pre.tracks@[i].id,
        forall|k: int|
            0 <= k < post.tracks@[i].clips@.len() ==> (#[trigger] post.tracks@[i].clips@[k]).id.0
                < post.next_id,
    ensures
        post.wf(),
{
    assert forall|a: int| 0 <= a < post.tracks@.len() implies (#[trigger] post.tracks@[a]).wf()
        by {
        if a != i {
            assert(post.tracks@[a] == pre.tracks@[a]);
        }
    }
    assert forall|a: int| 0 <= a < post.tracks@.len() implies (#[trigger] post.tracks@[a]).id.0
        < post.next_id by {
        if a != i {
            assert(pre.tracks@[a].id.0 < pre.next_id);
        } else {
            assert(pre.tracks@[i].id.0 < pre.next_id);
        }
    }
    assert forall|a: int, b: int|
        0 <= a < post.tracks@.len() && 0 <= b < post.tracks@[a].clips@.len() implies (
    #[trigger] post.tracks@[a].clips@[b]).id.0 < post.next_id by {
        if a != i {
            assert(post.tracks@[a] == pre.tracks@[a]);
            assert(pre.tracks@[a].clips@[b].id.0 < pre.next_id);
        }
    }
}

/// Replacing one track with a well-formed track of the same identifier
/// and clip identifiers keeps the engine well formed.
proof fn lemma_wf_after_track_update(pre: Engine, post: Engine, i: int)
    requires
        pre.wf(),
        0 <= i < pre.tracks@.len(),
        same_but_tracks(pre, post),
        post.tracks@.len() == pre.tracks@.len(),
        forall|j: int| 0 <= j < pre.tracks@.len() && j != i ==> post.tracks@[j] == pre.tracks@[j],
        post.tracks@[i].wf(),
        post.tracks@[i].id == pre.tracks@[i].id,
        post.tracks@[i].clips@.len() == pre.tracks@[i].clips@.len(),
        forall|k: int|
            0 <= k < post.tracks@[i].clips@.len() ==> (#[trigger] post.tracks@[i].clips@[k]).id
                == pre.tracks@[i].clips@[k].id,
    ensures
        post.wf(),
{
    assert forall|a: int, b: int|
        0 <= a < post.tracks@.len() && 0 <= b < post.tracks@[a].clips@.len() implies (
    #[trigger] post.tracks@[a].clips@[b]).id.0 < post.next_id by {
        if a == i {
            assert(pre.tracks@[a].clips@[b].id.0 < pre.next_id);
        } else {
            assert(post.tracks@[a] == pre.tracks@[a]);
            assert(pre.tracks@[a].clips@[b].id.0 < pre.next_id);
        }
    }
}

} // verus!
