use daw_modules::commands::{Command, MoveClip, ToggleSolo};
use daw_modules::engine::Engine;
use daw_modules::session::Session;

const SR: u32 = 48_000;
const SEC: u64 = 48_000;

#[test]
fn at_rest_nothing_is_scheduled_and_nothing_moves() {
    let mut engine = Engine::new(SR, 2);
    engine.add_track(String::from("t"));
    engine.add_clip(0, String::from("a.wav"), 0, 4 * SEC, SR, 2).unwrap();
    let pos_before = engine.transport.position_frames;
    assert!(!engine.transport.playing);
    let plan = engine.render(1024);
    assert_eq!(plan.frames, 1024);
    assert_eq!(plan.track_renders.len(), 0);
    assert_eq!(engine.transport.position_frames, pos_before);
}

#[test]
fn playing_advances_the_playhead_by_the_block() {
    let mut engine = Engine::new(SR, 2);
    engine.play();
    let plan = engine.render(1024);
    assert_eq!(plan.frames, 1024);
    assert_eq!(engine.transport.position_frames, 1024);
    engine.render(1024);
    assert_eq!(engine.transport.position_frames, 2048);
}

#[test]
fn moved_clips_overlap_and_both_are_scheduled() {
    // Clips at 0..2s and 2s..4s; moving the second to 1.0 s makes
    // them overlap, and a block at 1.25 s mixes both — their samples
    // sum.
    let mut engine = Engine::new(SR, 2);
    let id = engine.add_track(String::from("t"));
    engine.add_clip(0, String::from("a.wav"), 0, 2 * SEC, SR, 2).unwrap();
    engine.add_clip(0, String::from("b.wav"), 2 * SEC, 2 * SEC, SR, 2).unwrap();
    let mut session = Session::new();
    session
        .apply(
            &mut engine,
            Command::MoveClip(MoveClip {
                track_id: id,
                clip_index: 1,
                old_start_frames: 2 * SEC,
                new_start_frames: SEC,
            }),
        )
        .unwrap();

    engine.play();
    engine.seek(SEC + SEC / 4); // 1.25 s
    let plan = engine.render(1024);
    assert_eq!(plan.track_renders.len(), 1);
    let tasks = &plan.track_renders[0].tasks;
    assert_eq!(tasks.len(), 2, "both overlapping clips contribute to the block");
    assert_eq!(tasks[0].clip_index, 0);
    assert_eq!(tasks[0].dst_offset_frames, 0);
    assert_eq!(tasks[0].frames, 1024);
    assert!(tasks[0].mix);
    assert_eq!(tasks[1].clip_index, 1);
    assert_eq!(tasks[1].dst_offset_frames, 0);
    assert_eq!(tasks[1].frames, 1024);
    assert!(tasks[1].mix);
}

#[test]
fn clip_entering_mid_block_lands_at_its_offset_with_a_fade() {
    let mut engine = Engine::new(SR, 2);
    engine.add_track(String::from("t"));
    // The clip starts 100 frames into the block.
    engine.add_clip(0, String::from("a.wav"), 1_000_100, SEC, SR, 2).unwrap();
    engine.play();
    engine.seek(1_000_000);
    let plan = engine.render(1024);
    let tasks = &plan.track_renders[0].tasks;
    assert_eq!(tasks.len(), 1);
    assert_eq!(tasks[0].dst_offset_frames, 100);
    assert_eq!(tasks[0].frames, 924);
    assert!(tasks[0].fade_in);
    assert!(!tasks[0].fade_out);
}

#[test]
fn solo_precedence_over_mute() {
    // T1 muted, T2 unmuted.  Soloing T1 makes T1 audible and T2
    // silent; un-soloing restores T1 silent (still muted), T2 audible.
    let mut engine = Engine::new(SR, 2);
    let t1 = engine.add_track(String::from("T1"));
    engine.add_track(String::from("T2"));
    engine.tracks[0].muted = true;
    let mut session = Session::new();

    session.apply(&mut engine, Command::ToggleSolo(ToggleSolo { track_id: t1 })).unwrap();
    let any_solo = engine.any_solo();
    assert!(any_solo);
    assert!(engine.tracks[0].is_audible(any_solo), "soloed track sounds despite its mute");
    assert!(!engine.tracks[1].is_audible(any_solo), "unsoloed track is silent under solo");

    session.apply(&mut engine, Command::ToggleSolo(ToggleSolo { track_id: t1 })).unwrap();
    let any_solo = engine.any_solo();
    assert!(!any_solo);
    assert!(!engine.tracks[0].is_audible(any_solo), "mute state was preserved through solo");
    assert!(engine.tracks[1].is_audible(any_solo));
}

#[test]
fn inaudible_tracks_still_drain_their_clips() {
    let mut engine = Engine::new(SR, 2);
    engine.add_track(String::from("t"));
    engine.add_clip(0, String::from("a.wav"), 0, 4 * SEC, SR, 2).unwrap();
    engine.tracks[0].muted = true;
    engine.play();
    let plan = engine.render(1024);
    assert_eq!(plan.track_renders.len(), 1);
    assert!(!plan.track_renders[0].audible);
    let tasks = &plan.track_renders[0].tasks;
    assert_eq!(tasks.len(), 1);
    assert!(!tasks[0].mix, "a muted track's clips are drained, not mixed");
}

#[test]
fn gain_below_the_audibility_floor_silences_a_track() {
    let mut engine = Engine::new(SR, 2);
    engine.add_track(String::from("t"));
    engine.tracks[0].gain_bits = (0.0005f32).to_bits();
    assert!(!engine.tracks[0].is_audible(false));
    engine.tracks[0].gain_bits = (0.002f32).to_bits();
    assert!(engine.tracks[0].is_audible(false));
}

#[test]
fn master_gain_dead_band() {
    let mut engine = Engine::new(SR, 2);
    engine.play();
    let plan = engine.render(64);
    assert!(!plan.apply_master, "unity master gain is not applied");
    engine.set_master_gain((1.5f32).to_bits());
    let plan = engine.render(64);
    assert!(plan.apply_master);
    assert_eq!(plan.master_gain_bits, (1.5f32).to_bits());
    engine.set_master_gain((0.9995f32).to_bits());
    let plan = engine.render(64);
    assert!(!plan.apply_master, "a master gain within a thousandth of unity is skipped");
}

#[test]
fn single_clip_mid_clip_block_is_scheduled_transparently() {
    // One track, one clip spanning the block, default gain and pan,
    // nothing soloed, unity master: the schedule is a single
    // full-block mixing task with no fades and no master scaling.
    let mut engine = Engine::new(SR, 2);
    engine.add_track(String::from("t"));
    engine.add_clip(0, String::from("a.wav"), 0, 10 * SEC, SR, 2).unwrap();
    engine.play();
    engine.seek(SEC);
    let plan = engine.render(1024);
    assert!(!plan.any_solo);
    assert!(!plan.apply_master);
    assert_eq!(plan.track_renders.len(), 1);
    assert!(plan.track_renders[0].audible);
    let tasks = &plan.track_renders[0].tasks;
    assert_eq!(tasks.len(), 1);
    assert_eq!(tasks[0].clip_index, 0);
    assert_eq!(tasks[0].dst_offset_frames, 0);
    assert_eq!(tasks[0].frames, 1024);
    assert!(!tasks[0].fade_in);
    assert!(!tasks[0].fade_out);
    assert!(tasks[0].mix);
}

#[test]
fn stopped_tracks_are_not_scheduled() {
    let mut engine = Engine::new(SR, 2);
    engine.add_track(String::from("t"));
    engine.add_clip(0, String::from("a.wav"), 0, 4 * SEC, SR, 2).unwrap();
    // Play, then force the track itself back to stopped.
    engine.play();
    engine.tracks[0].state = daw_modules::track::TrackState::Stopped;
    let plan = engine.render(1024);
    assert_eq!(plan.track_renders.len(), 0);
}

#[test]
fn seek_reports_decoder_targets_for_every_clip() {
    let mut engine = Engine::new(SR, 2);
    engine.add_track(String::from("t"));
    engine.add_clip(0, String::from("a.wav"), 0, 2 * SEC, SR, 2).unwrap();
    engine.add_clip(0, String::from("b.wav"), 4 * SEC, 2 * SEC, SR, 2).unwrap();
    let targets = engine.seek(SEC);
    assert_eq!(engine.transport.position_frames, SEC);
    assert_eq!(targets.len(), 1);
    assert_eq!(targets[0].len(), 2);
    // One second into the first clip; the second clip has not started,
    // so its decoder is parked at its trim.
    assert_eq!(targets[0][0], Some(SEC));
    assert_eq!(targets[0][1], Some(0));
}
