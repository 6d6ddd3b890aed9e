//! The editing model's guarantees, stated and proved over the command
//! semantics: undo restores state exactly, merging reverses a split,
//! identifiers are never reused, and solo never disturbs mute flags.

use crate::clip::{Clip, ClipId};
use crate::commands::{
    ends_near, has_track, is_first_ending_near, is_first_splittable, is_first_track_with,
    same_but_tracks_and_ids, spec_applies, spec_ending_near_index, spec_execute_rel,
    spec_merge_tol, spec_split_index, spec_track_index, spec_undo_applies, spec_undo_rel, Command,
    MergeClips, SplitClip,
};
use crate::engine::{spec_any_solo, spec_playing_indices, Engine};
use crate::params::gain_above_floor;
use crate::track::Track;
use vstd::prelude::*;

verus! {

/// The command's captured inverse state matches the engine it is about
/// to be applied to, and — for the commands whose reversal searches the
/// clip list — nothing earlier in the list can shadow the search.
pub open spec fn spec_captures(e: Engine, c: Command) -> bool {
    match c {
        Command::SetTrackGain(c) => c.old_gain_bits == e.tracks@[spec_track_index(
            e.tracks@,
            c.track_id,
        )].gain_bits,
        Command::SetTrackPan(c) => c.old_pan_bits == e.tracks@[spec_track_index(
            e.tracks@,
            c.track_id,
        )].pan_bits,
        Command::SetTrackMute(c) => c.new_state != e.tracks@[spec_track_index(
            e.tracks@,
            c.track_id,
        )].muted,
        Command::ToggleSolo(_) => true,
        Command::MoveClip(c) => c.old_start_frames == e.tracks@[spec_track_index(
            e.tracks@,
            c.track_id,
        )].clips@[c.clip_index as int].start_frames,
        Command::UpdateEq(c) => c.old_params == e.tracks@[spec_track_index(
            e.tracks@,
            c.track_id,
        )].eq@[c.band_index as int],
        Command::DeleteClip(c) => c.captured == e.tracks@[spec_track_index(
            e.tracks@,
            c.track_id,
        )].clips@[c.clip_index as int],
        Command::RestoreClip(_) => true,
        Command::SplitClip(c) => {
            let clips = e.tracks@[spec_track_index(e.tracks@, c.track_id)].clips@;
            let j = spec_split_index(clips, c.at_frames as int);
            forall|k: int|
                0 <= k < j ==> !ends_near(#[trigger] clips[k], c.at_frames as int, spec_merge_tol(e))
        },
        Command::MergeClips(c) => c.captured_right == e.tracks@[spec_track_index(
            e.tracks@,
            c.track_id,
        )].clips@[c.left_index + 1],
    }
}

/// The two tracks hold the same editing state: identity, name,
/// colour, every parameter, and the same clips — compared by content,
/// not by allocation.
pub open spec fn track_state_eq(a: Track, b: Track) -> bool {
    &&& b.id == a.id
    &&& b.name == a.name
    &&& b.color == a.color
    &&& b.gain_bits == a.gain_bits
    &&& b.pan_bits == a.pan_bits
    &&& b.muted == a.muted
    &&& b.solo == a.solo
    &&& b.state == a.state
    &&& b.clips@ == a.clips@
    &&& b.eq@ == a.eq@
    &&& b.compressor == a.compressor
}

/// The two engines hold the same project state: the same transport,
/// master gain and tracks — clips and parameters included.  Only the
/// identifier counter may differ.
pub open spec fn same_project_state(a: Engine, b: Engine) -> bool {
    &&& b.sample_rate == a.sample_rate
    &&& b.channels == a.channels
    &&& b.transport == a.transport
    &&& b.master_gain_bits == a.master_gain_bits
    &&& b.tracks@.len() == a.tracks@.len()
    &&& forall|i: int|
        0 <= i < a.tracks@.len() ==> track_state_eq(a.tracks@[i], #[trigger] b.tracks@[i])
}

/// Chain two single-track changes whose net effect on that track is
/// nothing into equality of the whole project state.
proof fn lemma_same_project_state(pre: Engine, mid: Engine, post: Engine, i: int)
    requires
        0 <= i < pre.tracks@.len(),
        mid.tracks@.len() == pre.tracks@.len(),
        post.tracks@.len() == pre.tracks@.len(),
        forall|j: int|
            0 <= j < pre.tracks@.len() && j != i ==> (#[trigger] mid.tracks@[j])
                == pre.tracks@[j],
        forall|j: int|
            0 <= j < pre.tracks@.len() && j != i ==> (#[trigger] post.tracks@[j])
                == mid.tracks@[j],
        track_state_eq(pre.tracks@[i], post.tracks@[i]),
        same_but_tracks_and_ids(pre, mid),
        same_but_tracks_and_ids(mid, post),
    ensures
        same_project_state(pre, post),
{
    assert forall|j: int| 0 <= j < pre.tracks@.len() implies track_state_eq(
        pre.tracks@[j],
        #[trigger] post.tracks@[j],
    ) by {
        if j != i {
            assert(post.tracks@[j] == pre.tracks@[j]);
        }
    }
}

/// Two first matches of the same track identifier are the same index.
proof fn lemma_first_track_unique(tracks: Seq<Track>, id: crate::track::TrackId, j1: int, j2: int)
    requires
        is_first_track_with(tracks, id, j1),
        is_first_track_with(tracks, id, j2),
    ensures
        j1 == j2,
{
    if j1 < j2 {
        assert(tracks[j1].id != id);
    } else if j2 < j1 {
        assert(tracks[j2].id != id);
    }
}

/// After replacing tracks without touching identifiers, the same index
/// is still the first match.
proof fn lemma_track_index_stable(pre: Seq<Track>, post: Seq<Track>, id: crate::track::TrackId)
    requires
        has_track(pre, id),
        post.len() == pre.len(),
        forall|j: int| 0 <= j < pre.len() ==> (#[trigger] post[j]).id == pre[j].id,
    ensures
        has_track(post, id),
        spec_track_index(post, id) == spec_track_index(pre, id),
{
    let i = spec_track_index(pre, id);
    assert(is_first_track_with(pre, id, i));
    assert(is_first_track_with(post, id, i)) by {
        assert forall|j: int| 0 <= j < i implies (#[trigger] post[j]).id != id by {
            assert(pre[j].id != id);
        }
    }
    let k = spec_track_index(post, id);
    assert(is_first_track_with(post, id, k));
    lemma_first_track_unique(post, id, i, k);
}

/// Two first clips ending near the same point are the same index.
proof fn lemma_first_ending_near_unique(clips: Seq<Clip>, at: int, tol: int, j1: int, j2: int)
    requires
        is_first_ending_near(clips, at, tol, j1),
        is_first_ending_near(clips, at, tol, j2),
    ensures
        j1 == j2,
{
    if j1 < j2 {
        assert(!ends_near(clips[j1], at, tol));
    } else if j2 < j1 {
        assert(!ends_near(clips[j2], at, tol));
    }
}

/// *Undo is always possible.*  A command that was applied to the
/// engine whose state it captured can be reversed on the result.
pub proof fn lemma_undo_enabled(pre: Engine, mid: Engine, c: Command)
    requires
        pre.wf(),
        spec_captures(pre, c),
        spec_applies(pre, c),
        spec_execute_rel(pre, mid, c),
    ensures
        spec_undo_applies(mid, c),
{
    let tid = command_track_id(c);
    let i = spec_track_index(pre.tracks@, tid);
    assert(is_first_track_with(pre.tracks@, tid, i));
    lemma_track_index_stable(pre.tracks@, mid.tracks@, tid);
    assert(spec_track_index(mid.tracks@, tid) == i);
    assert(pre.tracks@[i].wf());
    match c {
        Command::SetTrackGain(_) => {},
        Command::SetTrackPan(_) => {},
        Command::SetTrackMute(_) => {},
        Command::ToggleSolo(_) => {},
        Command::MoveClip(c) => {
            assert(pre.tracks@[i].clips@[c.clip_index as int].wf());
        },
        Command::UpdateEq(_) => {},
        Command::DeleteClip(c) => {
            assert(pre.tracks@[i].clips@[c.clip_index as int].wf());
            pre.tracks@[i].clips@.remove_ensures(c.clip_index as int);
        },
        Command::RestoreClip(c) => {
            pre.tracks@[i].clips@.insert_ensures(c.clip_index as int, c.clip);
        },
        Command::SplitClip(c) => {
            let clips = pre.tracks@[i].clips@;
            let at = c.at_frames as int;
            let tol = spec_merge_tol(pre);
            let j = spec_split_index(clips, at);
            assert(is_first_splittable(clips, at, j));
            let orig = clips[j];
            let pieces = orig.spec_split(at, ClipId(pre.next_id));
            let left = pieces.0;
            let right = pieces.1;
            let m = clips.update(j, left);
            m.insert_ensures(j + 1, right);
            let mclips = mid.tracks@[i].clips@;
            assert(mclips == m.insert(j + 1, right));
            assert(mclips[j] == left);
            assert(mclips[j + 1] == right);
            assert(ends_near(left, at, tol));
            assert(is_first_ending_near(mclips, at, tol, j)) by {
                assert forall|k: int| 0 <= k < j implies !ends_near(
                    #[trigger] mclips[k],
                    at,
                    tol,
                ) by {
                    assert(mclips[k] == m[k]);
                    assert(m[k] == clips[k]);
                }
            }
            let jj = spec_ending_near_index(mclips, at, tol);
            assert(is_first_ending_near(mclips, at, tol, jj));
            lemma_first_ending_near_unique(mclips, at, tol, j, jj);
            assert(orig.wf());
            assert(Clip::spec_can_merge(left, right, tol));
        },
        Command::MergeClips(c) => {
            let clips = pre.tracks@[i].clips@;
            let j = c.left_index as int;
            assert(clips[j].wf());
            assert(clips[j + 1].wf());
        },
    }
}

/// The track a command addresses.
pub open spec fn command_track_id(c: Command) -> crate::track::TrackId {
    match c {
        Command::SetTrackGain(c) => c.track_id,
        Command::SetTrackPan(c) => c.track_id,
        Command::SetTrackMute(c) => c.track_id,
        Command::ToggleSolo(c) => c.track_id,
        Command::MoveClip(c) => c.track_id,
        Command::UpdateEq(c) => c.track_id,
        Command::DeleteClip(c) => c.track_id,
        Command::RestoreClip(c) => c.track_id,
        Command::SplitClip(c) => c.track_id,
        Command::MergeClips(c) => c.track_id,
    }
}

/// *Undo round trip.*  Applying any command to the engine whose state
/// it captured and then reversing it restores the tracks — clips and
/// parameters included — the transport and the master gain exactly.
/// Only the identifier counter may have advanced, so identifiers stay
/// fresh across delete and undo.
pub proof fn lemma_undo_round_trip(pre: Engine, mid: Engine, post: Engine, c: Command)
    requires
        pre.wf(),
        spec_captures(pre, c),
        spec_applies(pre, c),
        spec_execute_rel(pre, mid, c),
        spec_undo_rel(mid, post, c),
    ensures
        same_project_state(pre, post),
        post.next_id >= pre.next_id,
{
    let tid = command_track_id(c);
    let i = spec_track_index(pre.tracks@, tid);
    assert(is_first_track_with(pre.tracks@, tid, i));
    lemma_track_index_stable(pre.tracks@, mid.tracks@, tid);
    assert(spec_track_index(mid.tracks@, tid) == i);
    match c {
        Command::SetTrackGain(c) => {
            assert(track_state_eq(pre.tracks@[i], post.tracks@[i]));
            lemma_same_project_state(pre, mid, post, i);
        },
        Command::SetTrackPan(c) => {
            assert(track_state_eq(pre.tracks@[i], post.tracks@[i]));
            lemma_same_project_state(pre, mid, post, i);
        },
        Command::SetTrackMute(c) => {
            assert(track_state_eq(pre.tracks@[i], post.tracks@[i]));
            lemma_same_project_state(pre, mid, post, i);
        },
        Command::ToggleSolo(c) => {
            assert(track_state_eq(pre.tracks@[i], post.tracks@[i]));
            lemma_same_project_state(pre, mid, post, i);
        },
        Command::MoveClip(c) => {
            assert(post.tracks@[i].clips@ =~= pre.tracks@[i].clips@);
            assert(track_state_eq(pre.tracks@[i], post.tracks@[i]));
            lemma_same_project_state(pre, mid, post, i);
        },
        Command::UpdateEq(c) => {
            assert(post.tracks@[i].eq@ =~= pre.tracks@[i].eq@);
            assert(track_state_eq(pre.tracks@[i], post.tracks@[i]));
            lemma_same_project_state(pre, mid, post, i);
        },
        Command::DeleteClip(c) => {
            let clips = pre.tracks@[i].clips@;
            let ci = c.clip_index as int;
            clips.remove_ensures(ci);
            clips.remove(ci).insert_ensures(ci, c.captured);
            assert(post.tracks@[i].clips@ =~= clips);
            assert(track_state_eq(pre.tracks@[i], post.tracks@[i]));
            lemma_same_project_state(pre, mid, post, i);
        },
        Command::RestoreClip(c) => {
            let clips = pre.tracks@[i].clips@;
            let ci = c.clip_index as int;
            clips.insert_ensures(ci, c.clip);
            clips.insert(ci, c.clip).remove_ensures(ci);
            assert(post.tracks@[i].clips@ =~= clips);
            assert(track_state_eq(pre.tracks@[i], post.tracks@[i]));
            lemma_same_project_state(pre, mid, post, i);
        },
        Command::SplitClip(c) => {
            let clips = pre.tracks@[i].clips@;
            let at = c.at_frames as int;
            let tol = spec_merge_tol(pre);
            let j = spec_split_index(clips, at);
            assert(is_first_splittable(clips, at, j));
            let orig = clips[j];
            let pieces = orig.spec_split(at, ClipId(pre.next_id));
            let left = pieces.0;
            let right = pieces.1;
            let m = clips.update(j, left);
            m.insert_ensures(j + 1, right);
            let mclips = mid.tracks@[i].clips@;
            assert(mclips == m.insert(j + 1, right));
            assert(mclips[j] == left && mclips[j + 1] == right);
            // The left piece ends exactly at the cut, and everything
            // before it was captured as ending elsewhere, so the
            // reversal merges exactly the two pieces.
            assert(is_first_ending_near(mclips, at, tol, j)) by {
                assert forall|k: int| 0 <= k < j implies !ends_near(
                    #[trigger] mclips[k],
                    at,
                    tol,
                ) by {
                    assert(mclips[k] == m[k]);
                    assert(m[k] == clips[k]);
                }
            }
            let jj = spec_ending_near_index(mclips, at, tol);
            assert(is_first_ending_near(mclips, at, tol, jj));
            lemma_first_ending_near_unique(mclips, at, tol, j, jj);
            let merged = Clip::spec_merged(mclips[j], mclips[j + 1]);
            assert(merged =~= orig);
            let m2 = mclips.update(j, merged);
            m2.remove_ensures(j + 1);
            assert(post.tracks@[i].clips@ =~= clips);
            assert(track_state_eq(pre.tracks@[i], post.tracks@[i]));
            lemma_same_project_state(pre, mid, post, i);
        },
        Command::MergeClips(c) => {
            let clips = pre.tracks@[i].clips@;
            let j = c.left_index as int;
            let merged = Clip::spec_merged(clips[j], clips[j + 1]);
            let m = clips.update(j, merged);
            m.remove_ensures(j + 1);
            let mclips = mid.tracks@[i].clips@;
            assert(mclips == m.remove(j + 1));
            assert(mclips[j] == merged);
            let shrunk = Clip {
                duration_frames: (mclips[j].duration_frames
                    - c.captured_right.duration_frames) as u64,
                ..mclips[j]
            };
            assert(shrunk =~= clips[j]);
            let m2 = mclips.update(j, shrunk);
            m2.insert_ensures(j + 1, c.captured_right);
            assert(post.tracks@[i].clips@ =~= clips) by {
                assert forall|k: int| 0 <= k < clips.len() implies post.tracks@[i].clips@[k]
                    == clips[k] by {
                    if k < j {
                        assert(post.tracks@[i].clips@[k] == m2[k]);
                        assert(m2[k] == mclips[k]);
                        assert(mclips[k] == m[k]);
                    } else if k == j {
                        assert(post.tracks@[i].clips@[k] == m2[j]);
                    } else if k == j + 1 {
                        assert(post.tracks@[i].clips@[k] == c.captured_right);
                    } else {
                        assert(post.tracks@[i].clips@[k] == m2[k - 1]);
                        assert(m2[k - 1] == mclips[k - 1]);
                        assert(mclips[k - 1] == m[k]);
                    }
                }
            }
            assert(track_state_eq(pre.tracks@[i], post.tracks@[i]));
            lemma_same_project_state(pre, mid, post, i);
        },
    }
}

/// *Split and merge are inverse.*  Splitting a clip and then merging
/// the left piece with its new right neighbour — the merge the split
/// command's reversal performs — restores the original clip list.
pub proof fn lemma_split_merge_inverse(
    pre: Engine,
    mid: Engine,
    post: Engine,
    split: SplitClip,
    merge: MergeClips,
)
    requires
        pre.wf(),
        spec_applies(pre, Command::SplitClip(split)),
        spec_execute_rel(pre, mid, Command::SplitClip(split)),
        merge.track_id == split.track_id,
        merge.left_index as int == spec_split_index(
            pre.tracks@[spec_track_index(pre.tracks@, split.track_id)].clips@,
            split.at_frames as int,
        ),
        merge.captured_right == pre.tracks@[spec_track_index(
            pre.tracks@,
            split.track_id,
        )].clips@[spec_split_index(
            pre.tracks@[spec_track_index(pre.tracks@, split.track_id)].clips@,
            split.at_frames as int,
        )].spec_split(split.at_frames as int, ClipId(pre.next_id)).1,
        spec_execute_rel(mid, post, Command::MergeClips(merge)),
    ensures
        spec_applies(mid, Command::MergeClips(merge)),
        same_project_state(pre, post),
{
    let tid = split.track_id;
    let i = spec_track_index(pre.tracks@, tid);
    assert(is_first_track_with(pre.tracks@, tid, i));
    lemma_track_index_stable(pre.tracks@, mid.tracks@, tid);
    assert(spec_track_index(mid.tracks@, tid) == i);

    let clips = pre.tracks@[i].clips@;
    let at = split.at_frames as int;
    let tol = spec_merge_tol(pre);
    let j = spec_split_index(clips, at);
    assert(is_first_splittable(clips, at, j));
    let orig = clips[j];
    assert(orig.wf());
    let pieces = orig.spec_split(at, ClipId(pre.next_id));
    let left = pieces.0;
    let right = pieces.1;
    let m = clips.update(j, left);
    m.insert_ensures(j + 1, right);
    let mclips = mid.tracks@[i].clips@;
    assert(mclips == m.insert(j + 1, right));
    assert(mclips[j] == left && mclips[j + 1] == right);
    assert(Clip::spec_can_merge(left, right, tol));
    assert(spec_applies(mid, Command::MergeClips(merge)));

    let merged = Clip::spec_merged(left, right);
    assert(merged =~= orig);
    let m2 = mclips.update(j, merged);
    m2.remove_ensures(j + 1);
    assert(post.tracks@[i].clips@ =~= clips);
    assert(track_state_eq(pre.tracks@[i], post.tracks@[i]));
    lemma_same_project_state(pre, mid, post, i);
}

/// *Transparent schedule.*  With a single unmuted, unsoloed track in
/// the playing state whose one clip spans the whole block, a gain
/// above the audibility floor and a unity master gain, the schedule
/// passes the clip's samples straight through: exactly one full-block
/// mixing task, landing at the block's start, with no boundary fades
/// and no master scaling.  What the host then mixes is the decoded
/// source block itself, shaped only by the track's own gain, pan and
/// DSP.
pub proof fn lemma_transparent_schedule(tracks: Seq<Track>, t0: int, frames: int)
    requires
        tracks.len() == 1,
        tracks[0].state == crate::track::TrackState::Playing,
        !tracks[0].muted,
        !tracks[0].solo,
        gain_above_floor(tracks[0].gain_bits),
        tracks[0].clips@.len() == 1,
        tracks[0].clips@[0].start_frames <= t0,
        tracks[0].clips@[0].spec_end_frames() > t0 + frames,
        frames > 0,
    ensures
        !spec_any_solo(tracks),
        tracks[0].spec_audible(spec_any_solo(tracks)),
        spec_playing_indices(tracks, 1) =~= seq![0int],
        crate::track::spec_block_plan(tracks[0].clips@, t0, frames, true) =~= seq![
            crate::track::ClipTask {
                clip_index: 0,
                dst_offset_frames: 0,
                frames: frames as u64,
                fade_in: false,
                fade_out: false,
                mix: true,
            },
        ],
        !crate::params::master_gain_applies(crate::params::BITS_ONE),
{
    assert(crate::track::clip_overlaps(tracks[0].clips@[0], t0, t0 + frames));
    assert(spec_playing_indices(tracks, 0) =~= Seq::<int>::empty());
    assert(spec_playing_indices(tracks, 1) =~= Seq::<int>::empty().push(0));
    let plan = crate::track::spec_block_plan(tracks[0].clips@, t0, frames, true);
    assert(crate::track::spec_plan_prefix(tracks[0].clips@, 0, t0, frames, true)
        =~= Seq::<crate::track::ClipTask>::empty());
    let task = crate::track::spec_clip_task(tracks[0].clips@[0], 0, t0, frames, true);
    assert(plan =~= Seq::<crate::track::ClipTask>::empty().push(task));
    assert(task == (crate::track::ClipTask {
        clip_index: 0,
        dst_offset_frames: 0,
        frames: frames as u64,
        fade_in: false,
        fade_out: false,
        mix: true,
    }));
}

/// *Identifiers are never reused.*  Every track and clip identifier in
/// a well-formed engine lies strictly below the allocation counter, so
/// any identifier at or above the counter — in particular the one the
/// next allocation returns — is fresh.  Since every operation only
/// advances the counter, an identifier retired by a delete is never
/// handed out again, even after the delete is undone.
pub proof fn lemma_monotonic_ids(e: Engine)
    requires
        e.wf(),
    ensures
        forall|id: u32| id >= e.next_id ==> !e.contains_id(id),
{
    assert forall|id: u32| id >= e.next_id implies !e.contains_id(id) by {
        assert forall|i: int| 0 <= i < e.tracks@.len() implies (#[trigger] e.tracks@[i]).id.0
            != id by {
            assert(e.tracks@[i].id.0 < e.next_id);
        }
        assert forall|i: int, j: int|
            0 <= i < e.tracks@.len() && 0 <= j < e.tracks@[i].clips@.len() implies (
        #[trigger] e.tracks@[i].clips@[j]).id.0 != id by {
            assert(e.tracks@[i].clips@[j].id.0 < e.next_id);
        }
    }
}

/// *Solo is non-destructive.*  Applying or reversing a solo toggle
/// never touches any track's mute flag, so un-soloing all tracks
/// leaves exactly the pre-solo mute state.
pub proof fn lemma_solo_preserves_mutes(pre: Engine, post: Engine, c: Command)
    requires
        spec_applies(pre, c),
        c is ToggleSolo,
        spec_execute_rel(pre, post, c) || spec_undo_rel(pre, post, c),
    ensures
        post.tracks@.len() == pre.tracks@.len(),
        forall|i: int|
            0 <= i < pre.tracks@.len() ==> (#[trigger] post.tracks@[i]).muted
                == pre.tracks@[i].muted,
{
}

/// *Audibility without solo.*  When no track is soloed, a track sounds
/// exactly when it is unmuted and its gain clears the audibility
/// floor: the mute state alone decides.
pub proof fn lemma_no_solo_audibility(tracks: Seq<Track>)
    requires
        !spec_any_solo(tracks),
    ensures
        forall|i: int|
            0 <= i < tracks.len() ==> (#[trigger] tracks[i]).spec_audible(spec_any_solo(tracks))
                == (!tracks[i].muted && gain_above_floor(tracks[i].gain_bits)),
{
}

/// *Saving is loadable.*  A manifest gathered from a well-formed
/// engine passes the loader's validity check against that engine's
/// time signature, so a saved project can always be restored.
pub proof fn lemma_saved_manifest_valid(e: Engine, m: crate::manifest::ProjectManifest)
    requires
        e.wf(),
        m.bpm_millis == e.transport.tempo.bpm_millis,
        m.master_gain_bits == e.master_gain_bits,
        m.tracks@.len() == e.tracks@.len(),
        forall|i: int|
            0 <= i < e.tracks@.len() ==> crate::manifest::saves_track(
                e.tracks@[i],
                #[trigger] m.tracks@[i],
            ),
    ensures
        m.valid(e.transport.tempo.signature.denominator),
{
    assert forall|i: int| 0 <= i < m.tracks@.len() implies (#[trigger] m.tracks@[i]).valid() by {
        let t = e.tracks@[i];
        let ts = m.tracks@[i];
        assert(t.wf());
        assert forall|j: int| 0 <= j < ts.clips@.len() implies (#[trigger] ts.clips@[j]).valid() by {
            assert(ts.clips@[j].matches_clip(t.clips@[j]));
            assert(t.clips@[j].wf());
        }
    }
}

/// *Persistence round trip.*  A track saved to a manifest and loaded
/// back holds the same editing state: name, colour, every parameter,
/// the whole DSP chain, and each clip's placement and trim.  Only the
/// identifiers (assigned anew) and the transport state (loaded tracks
/// start stopped) differ.
pub proof fn lemma_save_load_round_trip(
    before: Track,
    saved: crate::manifest::TrackState,
    after: Track,
)
    requires
        crate::manifest::saves_track(before, saved),
        crate::manifest::loads_track(saved, after),
    ensures
        after.name == before.name,
        after.color == before.color,
        after.gain_bits == before.gain_bits,
        after.pan_bits == before.pan_bits,
        after.muted == before.muted,
        after.solo == before.solo,
        after.eq@ == before.eq@,
        after.compressor == before.compressor,
        after.clips@.len() == before.clips@.len(),
        forall|j: int|
            0 <= j < before.clips@.len() ==> {
                let a = #[trigger] after.clips@[j];
                let b = before.clips@[j];
                &&& a.path == b.path
                &&& a.start_frames == b.start_frames
                &&& a.offset_frames == b.offset_frames
                &&& a.duration_frames == b.duration_frames
                &&& a.source_duration_frames == b.source_duration_frames
                &&& a.source_sample_rate == b.source_sample_rate
                &&& a.source_channels == b.source_channels
            },
{
    assert forall|j: int| 0 <= j < before.clips@.len() implies {
        let a = #[trigger] after.clips@[j];
        let b = before.clips@[j];
        &&& a.path == b.path
        &&& a.start_frames == b.start_frames
        &&& a.offset_frames == b.offset_frames
        &&& a.duration_frames == b.duration_frames
        &&& a.source_duration_frames == b.source_duration_frames
        &&& a.source_sample_rate == b.source_sample_rate
        &&& a.source_channels == b.source_channels
    } by {
        assert(saved.clips@[j].matches_clip(before.clips@[j]));
        assert(saved.clips@[j].matches_clip(after.clips@[j]));
    }
}

} // verus!
