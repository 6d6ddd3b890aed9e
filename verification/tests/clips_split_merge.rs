use daw_modules::clip::Clip;
use daw_modules::commands::{Command, CommandError, MergeClips, SplitClip};
use daw_modules::engine::Engine;
use daw_modules::session::Session;
use daw_modules::track::TrackId;

const SR: u32 = 48_000;
const SEC: u64 = 48_000;

fn engine_with_clip(duration: u64) -> (Engine, TrackId) {
    let mut engine = Engine::new(SR, 2);
    let id = engine.add_track(String::from("guitar"));
    engine.add_clip(0, String::from("take.wav"), 0, duration, SR, 2).unwrap();
    (engine, id)
}

#[test]
fn split_at_one_second() {
    // A three-second clip split at 1.000 s becomes a one-second piece
    // and a two-second piece whose trim continues where the first
    // piece ends.
    let (mut engine, id) = engine_with_clip(3 * SEC);
    let mut session = Session::new();
    session
        .apply(&mut engine, Command::SplitClip(SplitClip { track_id: id, at_frames: SEC }))
        .unwrap();

    let clips = &engine.tracks[0].clips;
    assert_eq!(clips.len(), 2);
    assert_eq!(clips[0].start_frames, 0);
    assert_eq!(clips[0].offset_frames, 0);
    assert_eq!(clips[0].duration_frames, SEC);
    assert_eq!(clips[1].start_frames, SEC);
    assert_eq!(clips[1].offset_frames, SEC);
    assert_eq!(clips[1].duration_frames, 2 * SEC);
    assert_eq!(clips[1].path, "take.wav");
    assert_ne!(clips[0].id, clips[1].id);

    // Undo: exactly one clip with the original placement again.
    assert!(session.undo(&mut engine).unwrap());
    let clips = &engine.tracks[0].clips;
    assert_eq!(clips.len(), 1);
    assert_eq!(clips[0].start_frames, 0);
    assert_eq!(clips[0].offset_frames, 0);
    assert_eq!(clips[0].duration_frames, 3 * SEC);
}

#[test]
fn session_undo_of_a_split_succeeds_and_restores_the_clip() {
    // The split is on top of the undo stack; undoing it must succeed
    // and leave exactly the original clip, with the command moved to
    // the redo stack.
    let (mut engine, id) = engine_with_clip(3 * SEC);
    let mut session = Session::new();
    session
        .apply(&mut engine, Command::SplitClip(SplitClip { track_id: id, at_frames: SEC }))
        .unwrap();
    assert_eq!(session.undo(&mut engine), Ok(true));
    let clips = &engine.tracks[0].clips;
    assert_eq!(clips.len(), 1);
    assert_eq!(clips[0].start_frames, 0);
    assert_eq!(clips[0].offset_frames, 0);
    assert_eq!(clips[0].duration_frames, 3 * SEC);
    assert!(!session.command_manager.can_undo());
    assert!(session.command_manager.can_redo());
}

#[test]
fn split_then_merge_restores_clip_list() {
    let (mut engine, id) = engine_with_clip(3 * SEC);
    let original = engine.tracks[0].clips[0].clone();
    let mut session = Session::new();
    session
        .apply(&mut engine, Command::SplitClip(SplitClip { track_id: id, at_frames: SEC }))
        .unwrap();
    let right = engine.tracks[0].clips[1].clone();
    session
        .apply(
            &mut engine,
            Command::MergeClips(MergeClips { track_id: id, left_index: 0, captured_right: right }),
        )
        .unwrap();
    assert_eq!(engine.tracks[0].clips.len(), 1);
    assert_eq!(engine.tracks[0].clips[0], original);
}

#[test]
fn merge_within_one_millisecond_tolerance() {
    let mut engine = Engine::new(SR, 2);
    let id = engine.add_track(String::from("t"));
    // Two takes of the same file, the second starting 48 frames (one
    // millisecond) past where the first ends, contiguous in source.
    engine.place_clip(0, String::from("s.wav"), 0, 0, SEC, 3 * SEC, SR, 2).unwrap();
    engine.place_clip(0, String::from("s.wav"), SEC + 48, SEC + 48, SEC, 3 * SEC, SR, 2).unwrap();
    let right = engine.tracks[0].clips[1].clone();
    let mut session = Session::new();
    session
        .apply(
            &mut engine,
            Command::MergeClips(MergeClips { track_id: id, left_index: 0, captured_right: right }),
        )
        .unwrap();
    assert_eq!(engine.tracks[0].clips.len(), 1);
    assert_eq!(engine.tracks[0].clips[0].duration_frames, 2 * SEC);
}

#[test]
fn merge_past_tolerance_is_rejected() {
    let mut engine = Engine::new(SR, 2);
    let id = engine.add_track(String::from("t"));
    // 49 frames of gap: one frame beyond the millisecond tolerance.
    engine.place_clip(0, String::from("s.wav"), 0, 0, SEC, 3 * SEC, SR, 2).unwrap();
    engine.place_clip(0, String::from("s.wav"), SEC + 49, SEC + 49, SEC, 3 * SEC, SR, 2).unwrap();
    let right = engine.tracks[0].clips[1].clone();
    let mut session = Session::new();
    let outcome = session.apply(
        &mut engine,
        Command::MergeClips(MergeClips { track_id: id, left_index: 0, captured_right: right }),
    );
    assert_eq!(outcome, Err(CommandError::MergeNotAdjacent));
    assert_eq!(engine.tracks[0].clips.len(), 2);
}

#[test]
fn merge_of_different_sources_is_rejected() {
    let mut engine = Engine::new(SR, 2);
    let id = engine.add_track(String::from("t"));
    engine.place_clip(0, String::from("a.wav"), 0, 0, SEC, 3 * SEC, SR, 2).unwrap();
    engine.place_clip(0, String::from("b.wav"), SEC, SEC, SEC, 3 * SEC, SR, 2).unwrap();
    let right = engine.tracks[0].clips[1].clone();
    let mut session = Session::new();
    let outcome = session.apply(
        &mut engine,
        Command::MergeClips(MergeClips { track_id: id, left_index: 0, captured_right: right }),
    );
    assert_eq!(outcome, Err(CommandError::MergeNotAdjacent));
}

#[test]
fn split_outside_every_clip_is_rejected() {
    let (mut engine, id) = engine_with_clip(SEC);
    let mut session = Session::new();
    let outcome = session.apply(
        &mut engine,
        Command::SplitClip(SplitClip { track_id: id, at_frames: 2 * SEC }),
    );
    assert_eq!(outcome, Err(CommandError::SplitOutsideClip));
    assert_eq!(engine.tracks[0].clips.len(), 1);
}

#[test]
fn split_picks_first_clip_under_the_cut() {
    // Two overlapping clips both contain the cut; the first in list
    // order is the one split.
    let mut engine = Engine::new(SR, 2);
    let id = engine.add_track(String::from("t"));
    engine.place_clip(0, String::from("a.wav"), 0, 0, 2 * SEC, 3 * SEC, SR, 2).unwrap();
    engine.place_clip(0, String::from("b.wav"), 0, 0, 2 * SEC, 3 * SEC, SR, 2).unwrap();
    let mut session = Session::new();
    session
        .apply(&mut engine, Command::SplitClip(SplitClip { track_id: id, at_frames: SEC }))
        .unwrap();
    let clips = &engine.tracks[0].clips;
    assert_eq!(clips.len(), 3);
    assert_eq!(clips[0].path, "a.wav");
    assert_eq!(clips[0].duration_frames, SEC);
    assert_eq!(clips[1].path, "a.wav");
    assert_eq!(clips[1].start_frames, SEC);
    assert_eq!(clips[2].path, "b.wav");
    assert_eq!(clips[2].duration_frames, 2 * SEC);
}

#[test]
fn seek_targets_follow_trim_and_guard_source_end() {
    let clip = Clip {
        id: daw_modules::clip::ClipId(7),
        path: String::from("s.wav"),
        start_frames: 1_000,
        offset_frames: 100,
        duration_frames: 500,
        source_duration_frames: 800,
        source_sample_rate: SR,
        source_channels: 2,
    };
    // Before the clip: resume from the trim.
    assert_eq!(clip.seek_target(0), Some(100));
    // Inside: trim plus progress into the clip.
    assert_eq!(clip.seek_target(1_300), Some(400));
    // Past the source: leave the decoder alone.
    assert_eq!(clip.seek_target(2_000), None);
}
