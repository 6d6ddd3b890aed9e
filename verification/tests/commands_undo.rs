use daw_modules::commands::{
    Command, CommandError, DeleteClip, MoveClip, SetTrackGain, SetTrackMute, SetTrackPan,
    SplitClip, ToggleSolo, UpdateEq,
};
use daw_modules::engine::Engine;
use daw_modules::params::{EqFilterType, EqParams};
use daw_modules::session::Session;
use daw_modules::track::TrackId;

fn engine_with_track() -> (Engine, TrackId) {
    let mut engine = Engine::new(48_000, 2);
    let id = engine.add_track(String::from("drums"));
    (engine, id)
}

#[test]
fn gain_apply_then_undo_restores_snapshot() {
    let (mut engine, id) = engine_with_track();
    let mut session = Session::new();
    let old_bits = engine.tracks[0].gain_bits;
    let cmd = Command::SetTrackGain(SetTrackGain {
        track_id: id,
        old_gain_bits: old_bits,
        new_gain_bits: (0.5f32).to_bits(),
    });
    session.apply(&mut engine, cmd).unwrap();
    assert_eq!(engine.tracks[0].gain_bits, (0.5f32).to_bits());
    assert!(session.undo(&mut engine).unwrap());
    assert_eq!(engine.tracks[0].gain_bits, old_bits);
}

#[test]
fn pan_apply_undo_redo() {
    let (mut engine, id) = engine_with_track();
    let mut session = Session::new();
    let old_bits = engine.tracks[0].pan_bits;
    let new_bits = (-0.25f32).to_bits();
    let cmd = Command::SetTrackPan(SetTrackPan {
        track_id: id,
        old_pan_bits: old_bits,
        new_pan_bits: new_bits,
    });
    session.apply(&mut engine, cmd).unwrap();
    assert!(session.undo(&mut engine).unwrap());
    assert_eq!(engine.tracks[0].pan_bits, old_bits);
    assert!(session.redo(&mut engine).unwrap());
    assert_eq!(engine.tracks[0].pan_bits, new_bits);
}

#[test]
fn mute_undo_writes_opposite_flag() {
    let (mut engine, id) = engine_with_track();
    let mut session = Session::new();
    assert!(!engine.tracks[0].muted);
    let cmd = Command::SetTrackMute(SetTrackMute { track_id: id, new_state: true });
    session.apply(&mut engine, cmd).unwrap();
    assert!(engine.tracks[0].muted);
    assert!(session.undo(&mut engine).unwrap());
    assert!(!engine.tracks[0].muted);
}

#[test]
fn toggle_solo_is_self_inverse_and_keeps_mutes() {
    let (mut engine, id) = engine_with_track();
    engine.tracks[0].muted = true;
    let mut session = Session::new();
    let cmd = Command::ToggleSolo(ToggleSolo { track_id: id });
    session.apply(&mut engine, cmd).unwrap();
    assert!(engine.tracks[0].solo);
    assert!(engine.tracks[0].muted, "solo must not disturb the mute flag");
    assert!(session.undo(&mut engine).unwrap());
    assert!(!engine.tracks[0].solo);
    assert!(engine.tracks[0].muted);
}

#[test]
fn update_eq_round_trip() {
    let (mut engine, id) = engine_with_track();
    let mut session = Session::new();
    let old_params = engine.tracks[0].eq[1];
    let new_params = EqParams {
        filter_type: EqFilterType::LowShelf,
        freq_bits: (120.0f32).to_bits(),
        q_bits: (1.0f32).to_bits(),
        gain_db_bits: (3.0f32).to_bits(),
        active: true,
    };
    let cmd = Command::UpdateEq(UpdateEq { track_id: id, band_index: 1, old_params, new_params });
    session.apply(&mut engine, cmd).unwrap();
    assert_eq!(engine.tracks[0].eq[1], new_params);
    assert!(session.undo(&mut engine).unwrap());
    assert_eq!(engine.tracks[0].eq[1], old_params);
}

#[test]
fn move_clip_round_trip() {
    let (mut engine, id) = engine_with_track();
    engine.add_clip(0, String::from("kick.wav"), 0, 96_000, 48_000, 2).unwrap();
    let mut session = Session::new();
    let cmd = Command::MoveClip(MoveClip {
        track_id: id,
        clip_index: 0,
        old_start_frames: 0,
        new_start_frames: 48_000,
    });
    session.apply(&mut engine, cmd).unwrap();
    assert_eq!(engine.tracks[0].clips[0].start_frames, 48_000);
    assert!(session.undo(&mut engine).unwrap());
    assert_eq!(engine.tracks[0].clips[0].start_frames, 0);
}

#[test]
fn delete_clip_undo_restores_same_identifier() {
    let (mut engine, id) = engine_with_track();
    let clip_id = engine.add_clip(0, String::from("kick.wav"), 0, 96_000, 48_000, 2).unwrap();
    let mut session = Session::new();
    let captured = engine.tracks[0].clips[0].clone();
    let cmd = Command::DeleteClip(DeleteClip { track_id: id, clip_index: 0, captured });
    session.apply(&mut engine, cmd).unwrap();
    assert_eq!(engine.tracks[0].clips.len(), 0);
    assert!(session.undo(&mut engine).unwrap());
    assert_eq!(engine.tracks[0].clips.len(), 1);
    assert_eq!(engine.tracks[0].clips[0].id, clip_id);
    assert_eq!(engine.tracks[0].clips[0].path, "kick.wav");
    assert_eq!(engine.tracks[0].clips[0].duration_frames, 96_000);
}

#[test]
fn identifiers_never_repeat_across_delete_and_undo() {
    let (mut engine, id) = engine_with_track();
    let first = engine.add_clip(0, String::from("a.wav"), 0, 1_000, 48_000, 2).unwrap();
    let mut session = Session::new();
    let captured = engine.tracks[0].clips[0].clone();
    session
        .apply(&mut engine, Command::DeleteClip(DeleteClip { track_id: id, clip_index: 0, captured }))
        .unwrap();
    assert!(session.undo(&mut engine).unwrap());
    // A fresh allocation after the delete and its undo must not reuse
    // any identifier handed out before.
    let second = engine.add_clip(0, String::from("b.wav"), 0, 1_000, 48_000, 2).unwrap();
    assert_ne!(second, first);
    assert!(second.0 > first.0);
    assert!(second.0 >= id.0);
}

#[test]
fn history_is_bounded_and_drops_oldest_first() {
    let (mut engine, id) = engine_with_track();
    let mut manager = daw_modules::history::CommandManager::new(2);
    for step in 1..=3u32 {
        let old_bits = engine.tracks[0].gain_bits;
        let new_bits = (step as f32 * 0.25).to_bits();
        let cmd = Command::SetTrackGain(SetTrackGain {
            track_id: id,
            old_gain_bits: old_bits,
            new_gain_bits: new_bits,
        });
        manager.push(cmd, &mut engine).unwrap();
        assert!(manager.undo_stack.len() <= 2);
    }
    assert_eq!(manager.undo_stack.len(), 2);
    // Undoing everything that is left lands on the state after the
    // first command: the oldest entry was dropped, not the newest.
    assert!(manager.undo(&mut engine).unwrap());
    assert!(manager.undo(&mut engine).unwrap());
    assert!(!manager.can_undo());
    assert_eq!(engine.tracks[0].gain_bits, (0.25f32).to_bits());
}

#[test]
fn a_new_command_clears_the_redo_branch() {
    let (mut engine, id) = engine_with_track();
    let mut session = Session::new();
    let cmd_a = Command::SetTrackGain(SetTrackGain {
        track_id: id,
        old_gain_bits: (1.0f32).to_bits(),
        new_gain_bits: (0.5f32).to_bits(),
    });
    session.apply(&mut engine, cmd_a).unwrap();
    assert!(session.undo(&mut engine).unwrap());
    assert!(session.command_manager.can_redo());
    let cmd_b = Command::SetTrackPan(SetTrackPan {
        track_id: id,
        old_pan_bits: 0,
        new_pan_bits: (0.1f32).to_bits(),
    });
    session.apply(&mut engine, cmd_b).unwrap();
    assert!(!session.command_manager.can_redo(), "a new edit starts a new history branch");
}

#[test]
fn failed_command_reports_error_and_leaves_history_alone() {
    let (mut engine, _id) = engine_with_track();
    let mut session = Session::new();
    let missing = TrackId(999);
    let cmd = Command::SetTrackGain(SetTrackGain {
        track_id: missing,
        old_gain_bits: 0,
        new_gain_bits: (1.0f32).to_bits(),
    });
    assert_eq!(session.apply(&mut engine, cmd), Err(CommandError::TrackNotFound));
    assert!(!session.command_manager.can_undo());
}

#[test]
fn out_of_range_gain_is_rejected() {
    let (mut engine, id) = engine_with_track();
    let mut session = Session::new();
    let cmd = Command::SetTrackGain(SetTrackGain {
        track_id: id,
        old_gain_bits: 0,
        new_gain_bits: (3.0f32).to_bits(), // above the [0, 2] range
    });
    assert_eq!(session.apply(&mut engine, cmd), Err(CommandError::InvalidParameter));
}

#[test]
fn clip_index_out_of_range_is_reported() {
    let (mut engine, id) = engine_with_track();
    let mut session = Session::new();
    let cmd = Command::MoveClip(MoveClip {
        track_id: id,
        clip_index: 5,
        old_start_frames: 0,
        new_start_frames: 100,
    });
    assert_eq!(session.apply(&mut engine, cmd), Err(CommandError::ClipNotFound));
}

#[test]
fn stale_delete_is_rejected() {
    let (mut engine, id) = engine_with_track();
    engine.add_clip(0, String::from("a.wav"), 0, 1_000, 48_000, 2).unwrap();
    let mut session = Session::new();
    let mut captured = engine.tracks[0].clips[0].clone();
    captured.id = daw_modules::clip::ClipId(4242);
    let cmd = Command::DeleteClip(DeleteClip { track_id: id, clip_index: 0, captured });
    assert_eq!(session.apply(&mut engine, cmd), Err(CommandError::StaleCommand));
    assert_eq!(engine.tracks[0].clips.len(), 1);
}

#[test]
fn exhausted_identifier_counter_is_reported() {
    let (mut engine, id) = engine_with_track();
    engine.add_clip(0, String::from("a.wav"), 0, 96_000, 48_000, 2).unwrap();
    engine.next_id = u32::MAX;
    let mut session = Session::new();
    let cmd = Command::SplitClip(SplitClip { track_id: id, at_frames: 48_000 });
    assert_eq!(session.apply(&mut engine, cmd), Err(CommandError::IdsExhausted));
}
