use daw_modules::tempo::{GridLine, TempoMap, TimeSignature};

fn map_120_44() -> TempoMap {
    TempoMap { bpm_millis: 120_000, signature: TimeSignature { numerator: 4, denominator: 4 } }
}

#[test]
fn default_map_is_120_in_four_four() {
    let map = TempoMap::default();
    assert_eq!(map.bpm_millis, 120_000);
    assert_eq!(map.signature.numerator, 4);
    assert_eq!(map.signature.denominator, 4);
}

#[test]
fn micros_per_beat_at_120_bpm() {
    // 120 BPM in 4/4: half a second per beat.
    assert_eq!(map_120_44().micros_per_beat(), 500_000);
    assert_eq!(map_120_44().micros_per_bar(), 2_000_000);
}

#[test]
fn micros_per_step_by_resolution() {
    let map = map_120_44();
    assert_eq!(map.micros_per_step(1), 2_000_000); // one line per bar
    assert_eq!(map.micros_per_step(4), 500_000); // quarter notes
    assert_eq!(map.micros_per_step(8), 250_000); // eighths
    assert_eq!(map.micros_per_step(16), 125_000); // sixteenths
}

#[test]
fn grid_lines_quarter_notes_over_two_seconds() {
    let lines = map_120_44().get_grid_lines(0, 2_000_000, 4);
    let times: Vec<u64> = lines.iter().map(|l| l.time_micros).collect();
    assert_eq!(times, vec![0, 500_000, 1_000_000, 1_500_000, 2_000_000]);
    assert!(lines[0].is_bar_start);
    assert!(!lines[1].is_bar_start);
    assert!(!lines[2].is_bar_start);
    assert!(!lines[3].is_bar_start);
    assert!(lines[4].is_bar_start);
    assert_eq!(lines[0].bar_number, 1);
    assert_eq!(lines[3].bar_number, 1);
    assert_eq!(lines[4].bar_number, 2);
}

#[test]
fn grid_lines_split_window_gives_same_times() {
    // The grid over [a, b] equals the union of the grids over [a, m]
    // and [m, b], with m in mid-step.
    let map = map_120_44();
    let whole = map.get_grid_lines(0, 2_000_000, 4);
    let first = map.get_grid_lines(0, 700_000, 4);
    let second = map.get_grid_lines(700_000, 2_000_000, 4);

    let mut whole_times: Vec<u64> = whole.iter().map(|l| l.time_micros).collect();
    let mut union_times: Vec<u64> = first
        .iter()
        .chain(second.iter())
        .map(|l| l.time_micros)
        .collect();
    whole_times.sort();
    whole_times.dedup();
    union_times.sort();
    union_times.dedup();
    assert_eq!(whole_times, union_times);
}

#[test]
fn grid_lines_empty_when_window_before_first_step() {
    // A window strictly between two steps, more than a millisecond
    // from the next, has no lines.
    let map = map_120_44();
    let lines = map.get_grid_lines(100_000, 200_000, 4);
    assert_eq!(lines.len(), 0);
}

#[test]
fn grid_line_just_past_end_within_millisecond_is_kept() {
    // The step at 500 ms lies 500 us past the window end: inside the
    // one-millisecond slop.
    let map = map_120_44();
    let lines = map.get_grid_lines(400_000, 499_500, 4);
    assert_eq!(lines.len(), 1);
    assert_eq!(
        lines[0],
        GridLine { time_micros: 500_000, is_bar_start: false, bar_number: 1 }
    );
}

#[test]
fn timestamp_to_musical_mid_beat() {
    // 1.25 s at 120 BPM: two whole beats and half of the third.
    let map = map_120_44();
    let (bar, beat, rem) = map.timestamp_to_musical(1_250_000);
    assert_eq!(bar, 1);
    assert_eq!(beat, 3);
    assert_eq!(rem, 250_000);
}

#[test]
fn timestamp_to_musical_bar_boundary() {
    // Two seconds at 120 BPM in 4/4 is exactly the second bar's one.
    let map = map_120_44();
    let (bar, beat, rem) = map.timestamp_to_musical(2_000_000);
    assert_eq!(bar, 2);
    assert_eq!(beat, 1);
    assert_eq!(rem, 0);
}

#[test]
fn waltz_signature_steps_per_bar() {
    let map = TempoMap { bpm_millis: 90_000, signature: TimeSignature { numerator: 3, denominator: 4 } };
    assert_eq!(map.steps_per_bar(4), 3);
    assert_eq!(map.steps_per_bar(1), 1);
    // 90 BPM: two thirds of a second per beat.
    assert_eq!(map.micros_per_beat(), 666_666);
}
