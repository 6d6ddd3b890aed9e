use daw_modules::decoder::{DecoderAction, DecoderCmd, DecoderEvent, DecoderState};
use daw_modules::dsp::{downmix_group, fade_samples_ms, upmix_source};
use daw_modules::export::{bounce_finished, bounce_mutes, export_start_frame, silence_audio_split};
use daw_modules::manifest::TrackState;
use daw_modules::meter::{hold_countdown, hold_duration_frames, TrackMeters};
use daw_modules::params::EqFilterType;

#[test]
fn fade_lengths() {
    assert_eq!(fade_samples_ms(48_000, 10), 480);
    assert_eq!(fade_samples_ms(44_100, 10), 441);
    assert_eq!(fade_samples_ms(44_100, 5), 220);
    assert_eq!(fade_samples_ms(0, 10), 0);
}

#[test]
fn seek_primes_the_fade_ramp() {
    let mut state = DecoderState::new();
    let action = state.step(DecoderEvent::Control(DecoderCmd::Seek(12_345)), 48_000, 2);
    assert_eq!(action, DecoderAction::PerformSeek { target_frames: 12_345 });
    // Ten milliseconds at 48 kHz, stereo-interleaved.
    assert_eq!(state.fade_remaining_samples, 960);
}

#[test]
fn fade_ramp_is_consumed_across_pushes() {
    let mut state = DecoderState::new();
    state.step(DecoderEvent::Control(DecoderCmd::Seek(0)), 48_000, 2);
    assert_eq!(state.fade_take(600), 600);
    assert_eq!(state.fade_take(600), 360);
    assert_eq!(state.fade_take(600), 0);
    assert_eq!(state.fade_remaining_samples, 0);
}

#[test]
fn end_of_stream_parks_and_a_seek_revives() {
    let mut state = DecoderState::new();
    assert_eq!(state.step(DecoderEvent::PacketUnavailable, 48_000, 2), DecoderAction::Continue);
    assert!(state.at_eof);
    assert_eq!(state.step(DecoderEvent::Idle, 48_000, 2), DecoderAction::Sleep);
    state.step(DecoderEvent::Control(DecoderCmd::Seek(0)), 48_000, 2);
    assert_eq!(state.step(DecoderEvent::SeekFinished { ok: true }, 48_000, 2), DecoderAction::Continue);
    assert!(!state.at_eof, "a successful seek resumes decoding");
}

#[test]
fn failed_seek_keeps_the_park() {
    let mut state = DecoderState::new();
    state.step(DecoderEvent::PacketUnavailable, 48_000, 2);
    state.step(DecoderEvent::SeekFinished { ok: false }, 48_000, 2);
    assert!(state.at_eof);
}

#[test]
fn transient_packet_errors_are_skipped_and_close_exits() {
    let mut state = DecoderState::new();
    assert_eq!(state.step(DecoderEvent::PacketWrongStream, 48_000, 2), DecoderAction::SkipPacket);
    assert_eq!(state.step(DecoderEvent::PacketDecodeFailed, 48_000, 2), DecoderAction::SkipPacket);
    assert_eq!(state.step(DecoderEvent::PacketDecoded, 48_000, 2), DecoderAction::PushSamples);
    assert!(!state.at_eof);
    assert_eq!(state.step(DecoderEvent::ControlClosed, 48_000, 2), DecoderAction::Exit);
}

#[test]
fn channel_groups_when_narrowing() {
    // Six channels into two: each output averages three inputs.
    assert_eq!(downmix_group(0, 6, 2), (0, 3));
    assert_eq!(downmix_group(1, 6, 2), (3, 6));
    // Three into two: the groups overlap on the middle channel.
    assert_eq!(downmix_group(0, 3, 2), (0, 2));
    assert_eq!(downmix_group(1, 3, 2), (1, 3));
}

#[test]
fn channel_sources_when_widening() {
    assert_eq!(upmix_source(0, 2), 0);
    assert_eq!(upmix_source(1, 2), 1);
    assert_eq!(upmix_source(2, 2), 0);
    assert_eq!(upmix_source(5, 2), 1);
}

#[test]
fn default_eq_chain_matches_the_reference_settings() {
    let chain = daw_modules::params::default_eq_chain();
    assert_eq!(chain.len(), 4);
    // High-pass at 75 Hz, Q 0.707, active.
    assert_eq!(chain[0].filter_type, EqFilterType::HighPass);
    assert_eq!(chain[0].freq_bits, (75.0f32).to_bits());
    assert_eq!(chain[0].q_bits, (0.707f32).to_bits());
    assert!(chain[0].active);
    // Two peaking bands at 200 Hz and 2 kHz, Q 1.0, bypassed.
    assert_eq!(chain[1].filter_type, EqFilterType::Peaking);
    assert_eq!(chain[1].freq_bits, (200.0f32).to_bits());
    assert_eq!(chain[1].q_bits, (1.0f32).to_bits());
    assert!(!chain[1].active);
    assert_eq!(chain[2].filter_type, EqFilterType::Peaking);
    assert_eq!(chain[2].freq_bits, (2000.0f32).to_bits());
    assert_eq!(chain[2].q_bits, (1.0f32).to_bits());
    assert!(!chain[2].active);
    // High shelf at 10 kHz, Q 0.707, bypassed.
    assert_eq!(chain[3].filter_type, EqFilterType::HighShelf);
    assert_eq!(chain[3].freq_bits, (10_000.0f32).to_bits());
    assert_eq!(chain[3].q_bits, (0.707f32).to_bits());
    assert!(!chain[3].active);
    // All bands start at 0 dB gain.
    for band in chain.iter() {
        assert_eq!(band.gain_db_bits, (0.0f32).to_bits());
    }
}

#[test]
fn fresh_meters_are_dark_and_hold_counts_down() {
    let meters = TrackMeters::new();
    assert_eq!(meters.peak_l, 0);
    assert_eq!(meters.rms_r, 0);
    assert_eq!(hold_duration_frames(48_000), 24_000);
    assert_eq!(hold_countdown(24_000, 1024), 22_976);
    assert_eq!(hold_countdown(500, 1024), 0);
}

#[test]
fn voice_start_converts_to_the_bounce_rate() {
    // At a 44.1 kHz session the start carries over unchanged.
    assert_eq!(export_start_frame(44_100, 44_100), 44_100);
    // One second at 48 kHz lands at one second of 44.1 kHz.
    assert_eq!(export_start_frame(48_000, 48_000), 44_100);
    // Rounding to the nearest output frame.
    assert_eq!(export_start_frame(1, 48_000), 1);
}

#[test]
fn blocks_split_into_owed_silence_and_audio() {
    assert_eq!(silence_audio_split(0, 100, 64), (64, 0));
    assert_eq!(silence_audio_split(90, 100, 64), (10, 54));
    assert_eq!(silence_audio_split(100, 100, 64), (0, 64));
    assert_eq!(silence_audio_split(200, 100, 64), (0, 64));
}

fn saved_track(muted: bool, solo: bool) -> TrackState {
    TrackState {
        name: String::new(),
        color: String::new(),
        gain_bits: (1.0f32).to_bits(),
        pan_bits: 0,
        muted,
        solo,
        clips: vec![],
        compressor: None,
        eq: None,
    }
}

#[test]
fn bounce_mirrors_the_live_solo_rule() {
    // No solo: the saved mute flags stand.
    let tracks = vec![saved_track(true, false), saved_track(false, false)];
    assert_eq!(bounce_mutes(&tracks), vec![true, false]);
    // Soloing the muted track silences the other instead.
    let tracks = vec![saved_track(true, true), saved_track(false, false)];
    assert_eq!(bounce_mutes(&tracks), vec![false, true]);
}

#[test]
fn bounce_stops_on_completion_or_cap() {
    assert!(!bounce_finished(false, 0));
    assert!(bounce_finished(true, 0));
    assert!(!bounce_finished(false, 26_460_000));
    assert!(bounce_finished(false, 26_460_001));
}
