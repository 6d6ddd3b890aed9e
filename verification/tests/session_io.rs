use daw_modules::commands::{Command, SetTrackGain};
use daw_modules::engine::Engine;
use daw_modules::manifest::{ClipState, ProjectManifest, TrackState};
use daw_modules::session::{LoadError, Session};

const SR: u32 = 48_000;
const SEC: u64 = 48_000;

fn small_project() -> (Engine, Session) {
    let mut engine = Engine::new(SR, 2);
    let id = engine.add_track(String::from("vox"));
    engine.add_clip(0, String::from("vox.wav"), SEC, 2 * SEC, 44_100, 1).unwrap();
    engine.add_track(String::from("keys"));
    engine.add_clip(1, String::from("keys.wav"), 0, 3 * SEC, SR, 2).unwrap();
    engine.tracks[1].pan_bits = (0.5f32).to_bits();
    engine.tracks[1].muted = true;
    let mut session = Session::new();
    session
        .apply(
            &mut engine,
            Command::SetTrackGain(SetTrackGain {
                track_id: id,
                old_gain_bits: (1.0f32).to_bits(),
                new_gain_bits: (0.75f32).to_bits(),
            }),
        )
        .unwrap();
    (engine, session)
}

#[test]
fn save_mirrors_the_engine() {
    let (engine, session) = small_project();
    let manifest = session.save_project(&engine);
    assert_eq!(manifest.version, 1);
    assert_eq!(manifest.bpm_millis, 120_000);
    assert_eq!(manifest.master_gain_bits, (1.0f32).to_bits());
    assert_eq!(manifest.tracks.len(), 2);
    assert_eq!(manifest.tracks[0].name, "vox");
    assert_eq!(manifest.tracks[0].gain_bits, (0.75f32).to_bits());
    assert_eq!(manifest.tracks[0].clips.len(), 1);
    assert_eq!(manifest.tracks[0].clips[0].path, "vox.wav");
    assert_eq!(manifest.tracks[0].clips[0].start_frames, SEC);
    assert_eq!(manifest.tracks[0].clips[0].duration_frames, 2 * SEC);
    assert_eq!(manifest.tracks[1].muted, true);
    assert_eq!(manifest.tracks[1].pan_bits, (0.5f32).to_bits());
    assert_eq!(manifest.tracks[1].eq.as_ref().unwrap().len(), 4);
}

#[test]
fn save_then_load_round_trips_the_project() {
    let (engine, session) = small_project();
    let manifest = session.save_project(&engine);

    let mut fresh = Engine::new(SR, 2);
    let mut fresh_session = Session::new();
    fresh_session.load_project(&mut fresh, &manifest).unwrap();

    assert_eq!(fresh.tracks.len(), engine.tracks.len());
    for (a, b) in engine.tracks.iter().zip(fresh.tracks.iter()) {
        assert_eq!(a.name, b.name);
        assert_eq!(a.gain_bits, b.gain_bits);
        assert_eq!(a.pan_bits, b.pan_bits);
        assert_eq!(a.muted, b.muted);
        assert_eq!(a.solo, b.solo);
        assert_eq!(a.eq, b.eq);
        assert_eq!(a.compressor, b.compressor);
        assert_eq!(a.clips.len(), b.clips.len());
        for (ca, cb) in a.clips.iter().zip(b.clips.iter()) {
            assert_eq!(ca.path, cb.path);
            assert_eq!(ca.start_frames, cb.start_frames);
            assert_eq!(ca.offset_frames, cb.offset_frames);
            assert_eq!(ca.duration_frames, cb.duration_frames);
            assert_eq!(ca.source_sample_rate, cb.source_sample_rate);
        }
    }
    assert_eq!(fresh.transport.tempo.bpm_millis, 120_000);
    assert_eq!(fresh.master_gain_bits, manifest.master_gain_bits);
}

#[test]
fn load_clears_the_command_history() {
    let (mut engine, mut session) = small_project();
    assert!(session.command_manager.can_undo());
    let manifest = session.save_project(&engine);
    session.load_project(&mut engine, &manifest).unwrap();
    assert!(!session.command_manager.can_undo());
    assert!(!session.command_manager.can_redo());
}

#[test]
fn load_preserves_trimmed_clip_placement() {
    // A manifest whose clip is trimmed must come back with its offset
    // and duration, not re-imported at the origin.
    let manifest = ProjectManifest {
        version: 1,
        master_gain_bits: (1.0f32).to_bits(),
        bpm_millis: 90_000,
        tracks: vec![TrackState {
            name: String::from("t"),
            color: String::from("teal"),
            gain_bits: (1.0f32).to_bits(),
            pan_bits: 0,
            muted: false,
            solo: false,
            clips: vec![ClipState {
                path: String::from("s.wav"),
                start_frames: 5 * SEC,
                offset_frames: SEC,
                duration_frames: 2 * SEC,
                source_duration_frames: 4 * SEC,
                source_sample_rate: SR,
                source_channels: 2,
            }],
            compressor: None,
            eq: None,
        }],
    };
    let mut engine = Engine::new(SR, 2);
    let mut session = Session::new();
    session.load_project(&mut engine, &manifest).unwrap();
    assert_eq!(engine.transport.tempo.bpm_millis, 90_000);
    let clip = &engine.tracks[0].clips[0];
    assert_eq!(clip.start_frames, 5 * SEC);
    assert_eq!(clip.offset_frames, SEC);
    assert_eq!(clip.duration_frames, 2 * SEC);
    // Absent DSP sections fall back to the defaults.
    assert_eq!(engine.tracks[0].eq.len(), 4);
    assert!(engine.tracks[0].compressor.is_active);
}

#[test]
fn invalid_tempo_is_rejected_and_nothing_changes() {
    let (mut engine, mut session) = small_project();
    let tracks_before = engine.tracks.len();
    let manifest = ProjectManifest {
        version: 1,
        master_gain_bits: (1.0f32).to_bits(),
        bpm_millis: 0,
        tracks: vec![],
    };
    assert_eq!(
        session.load_project(&mut engine, &manifest),
        Err(LoadError::InvalidManifest)
    );
    assert_eq!(engine.tracks.len(), tracks_before);
    assert!(session.command_manager.can_undo(), "a failed load keeps the history");
}

#[test]
fn degenerate_clip_in_manifest_is_rejected() {
    let manifest = ProjectManifest {
        version: 1,
        master_gain_bits: (1.0f32).to_bits(),
        bpm_millis: 120_000,
        tracks: vec![TrackState {
            name: String::from("t"),
            color: String::new(),
            gain_bits: (1.0f32).to_bits(),
            pan_bits: 0,
            muted: false,
            solo: false,
            clips: vec![ClipState {
                path: String::from("s.wav"),
                start_frames: 0,
                offset_frames: 0,
                duration_frames: 0, // no frames
                source_duration_frames: SEC,
                source_sample_rate: SR,
                source_channels: 2,
            }],
            compressor: None,
            eq: None,
        }],
    };
    let mut engine = Engine::new(SR, 2);
    let mut session = Session::new();
    assert_eq!(
        session.load_project(&mut engine, &manifest),
        Err(LoadError::InvalidManifest)
    );
}
