//! Offline bounce scheduling: the deterministic, integer part of the
//! block-by-block renderer that turns a project manifest into a
//! mixdown file.
//!
//! The host owns the demuxers, decoders and resamplers; this module
//! decides where each voice starts, how a block divides into leading
//! silence and audio, which voices the solo rule silences, and when
//! the bounce stops.

use crate::manifest::TrackState;
use vstd::prelude::*;

verus! {

/// Sample rate of the bounced file.
pub const BOUNCE_SAMPLE_RATE: u32 = 44_100;

/// Safety cap on the bounce length: ten minutes at the bounce rate.
pub const BOUNCE_CAP_FRAMES: u64 = 26_460_000;

/// The first output frame at which a voice placed at `start_frames`
/// (in session frames at `session_rate`) sounds in the bounced file:
/// its start converted to the bounce rate, rounded to the nearest
/// frame.
pub fn export_start_frame(start_frames: u64, session_rate: u32) -> (start: u64)
    requires
        session_rate > 0,
        (start_frames as int * BOUNCE_SAMPLE_RATE as int + session_rate as int / 2)
            / session_rate as int <= u64::MAX as int,
    ensures
        start == (start_frames as int * BOUNCE_SAMPLE_RATE as int + session_rate as int / 2)
            / session_rate as int,
{
    proof {
        assert(start_frames as int * BOUNCE_SAMPLE_RATE as int <= u64::MAX as int
            * BOUNCE_SAMPLE_RATE as int) by (nonlinear_arith)
            requires
                start_frames <= u64::MAX,
        ;
    }
    let wide: u128 = start_frames as u128 * BOUNCE_SAMPLE_RATE as u128 + (session_rate / 2) as u128;
    (wide / session_rate as u128) as u64
}

/// Split a block of `frames` output frames into the silence a voice
/// still owes before its start and the audio that follows: with
/// `frames_processed` frames already emitted and the voice starting at
/// `start_frame`, the leading `silence` frames stay empty.
pub fn silence_audio_split(frames_processed: u64, start_frame: u64, frames: u64) -> (split: (
    u64,
    u64,
))
    ensures
        ({
            let silence: int = if frames_processed < start_frame {
                if start_frame - frames_processed < frames {
                    start_frame - frames_processed
                } else {
                    frames as int
                }
            } else {
                0
            };
            split.0 == silence && split.1 == frames - silence
        }),
{
    if frames_processed < start_frame {
        let gap = start_frame - frames_processed;
        if gap < frames {
            (gap, frames - gap)
        } else {
            (frames, 0)
        }
    } else {
        (0, frames)
    }
}

/// Whether some saved track is soloed.
pub open spec fn spec_any_solo_state(tracks: Seq<TrackState>) -> bool {
    exists|i: int| 0 <= i < tracks.len() && (#[trigger] tracks[i]).solo
}

/// Which voices the bounce silences, mirroring the live audibility
/// rule: under any solo only soloed tracks sound, otherwise the mute
/// flags stand as saved.
pub fn bounce_mutes(tracks: &Vec<TrackState>) -> (mutes: Vec<bool>)
    ensures
        mutes@.len() == tracks@.len(),
        forall|i: int|
            0 <= i < tracks@.len() ==> #[trigger] mutes@[i] == if spec_any_solo_state(tracks@) {
                !tracks@[i].solo
            } else {
                tracks@[i].muted
            },
{
    let mut any_solo = false;
    let mut i: usize = 0;
    while i < tracks.len()
        invariant
            i <= tracks@.len(),
            any_solo == exists|k: int| 0 <= k < i && (#[trigger] tracks@[k]).solo,
        decreases tracks@.len() - i,
    {
        if tracks[i].solo {
            any_solo = true;
        }
        i = i + 1;
    }
    proof {
        assert(any_solo == spec_any_solo_state(tracks@));
    }
    let mut mutes: Vec<bool> = Vec::new();
    let mut j: usize = 0;
    while j < tracks.len()
        invariant
            j <= tracks@.len(),
            any_solo == spec_any_solo_state(tracks@),
            mutes@.len() == j,
            forall|k: int|
                0 <= k < j ==> #[trigger] mutes@[k] == if spec_any_solo_state(tracks@) {
                    !tracks@[k].solo
                } else {
                    tracks@[k].muted
                },
        decreases tracks@.len() - j,
    {
        if any_solo {
            mutes.push(!tracks[j].solo);
        } else {
            mutes.push(tracks[j].muted);
        }
        j = j + 1;
    }
    mutes
}

/// Whether the bounce loop stops: every voice finished, or the safety
/// cap reached.
pub fn bounce_finished(all_voices_done: bool, total_frames: u64) -> (stop: bool)
    ensures
        stop == (all_voices_done || total_frames > BOUNCE_CAP_FRAMES),
{
    all_voices_done || total_frames > BOUNCE_CAP_FRAMES
}

} // verus!
