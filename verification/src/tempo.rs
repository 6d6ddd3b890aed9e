//! The tempo map: relates real time (microseconds) to musical time
//! (bars and beats) and generates the timeline grid.
//!
//! Tempo is carried in thousandths of a beat per minute so that all grid
//! arithmetic is exact integer arithmetic: grid lines sit at integer
//! multiples of a fixed step length, so a grid is independent of the
//! window it was requested through.

use vstd::arithmetic::div_mod::{
    lemma_div_is_ordered, lemma_div_pos_is_pos, lemma_fundamental_div_mod, lemma_remainder_lower,
};
use vstd::arithmetic::mul::lemma_mul_is_distributive_sub_other_way;
use vstd::prelude::*;

verus! {

/// A musical time signature, e.g. 4/4.
#[derive(Clone, Copy, Debug, PartialEq, Eq, Structural)]
pub struct TimeSignature {
    pub numerator: u32,
    pub denominator: u32,
}

impl Default for TimeSignature {
    /// The default signature is 4/4.
    fn default() -> (sig: Self)
        ensures
            sig.numerator == 4,
            sig.denominator == 4,
    {
        Self { numerator: 4, denominator: 4 }
    }
}

/// One line of the timeline grid.
#[derive(Clone, Copy, Debug, PartialEq, Eq, Structural)]
pub struct GridLine {
    /// Exact time of the line in microseconds.
    pub time_micros: u64,
    /// Whether this line is the start of a bar.
    pub is_bar_start: bool,
    /// One-indexed bar number the line falls in.
    pub bar_number: u32,
}

/// Microseconds in one minute, scaled by four quarter notes per whole
/// note and by the thousandths in which the tempo is kept.
pub const BEAT_SCALE_MICROS: u64 = 240_000_000_000;

/// Upper bound on grid window ends, so products of steps and step
/// lengths stay well inside `u64`.
pub const MAX_GRID_MICROS: u64 = 0x4_0000_0000_0000;

/// Relates real time (seconds) to musical time (bars and beats).
#[derive(Clone, Copy, Debug, PartialEq, Eq, Structural)]
pub struct TempoMap {
    /// Tempo in thousandths of a beat per minute, e.g. 120000 for 120.
    pub bpm_millis: u32,
    pub signature: TimeSignature,
}

impl Default for TempoMap {
    /// The default map is 120 beats per minute in 4/4.
    fn default() -> (map: Self)
        ensures
            map.bpm_millis == 120_000,
            map.signature.numerator == 4,
            map.signature.denominator == 4,
    {
        Self { bpm_millis: 120_000, signature: TimeSignature { numerator: 4, denominator: 4 } }
    }
}

impl TempoMap {
    /// A tempo map is well formed when tempo and signature are positive,
    /// the signature is of ordinary size, and a beat lasts at least one
    /// microsecond.
    pub open spec fn wf(self) -> bool {
        &&& self.bpm_millis > 0
        &&& 1 <= self.signature.numerator <= 64
        &&& 1 <= self.signature.denominator <= 64
        &&& self.bpm_millis * self.signature.denominator <= BEAT_SCALE_MICROS
    }

    /// Length of one beat in microseconds: `(60 / bpm) * (4 / den)`
    /// seconds, rounded down to whole microseconds.
    pub open spec fn spec_micros_per_beat(self) -> int {
        BEAT_SCALE_MICROS as int / (self.bpm_millis * self.signature.denominator) as int
    }

    /// Length of one beat in microseconds.
    pub fn micros_per_beat(&self) -> (mpb: u64)
        requires
            self.wf(),
        ensures
            mpb == self.spec_micros_per_beat(),
            1 <= mpb <= BEAT_SCALE_MICROS,
    {
        proof {
            assert(1 <= self.bpm_millis as int * self.signature.denominator as int
                <= u32::MAX as int * 64) by (nonlinear_arith)
                requires
                    1 <= self.bpm_millis <= u32::MAX,
                    1 <= self.signature.denominator <= 64,
            ;
        }
        let divisor: u64 = self.bpm_millis as u64 * self.signature.denominator as u64;
        proof {
            vstd::arithmetic::div_mod::lemma_div_by_self(divisor as int);
            lemma_div_is_ordered(divisor as int, BEAT_SCALE_MICROS as int, divisor as int);
            vstd::arithmetic::div_mod::lemma_div_nonincreasing(
                BEAT_SCALE_MICROS as int,
                divisor as int,
            );
        }
        BEAT_SCALE_MICROS / divisor
    }

    /// Length of one bar in microseconds: one beat per numerator count.
    pub open spec fn spec_micros_per_bar(self) -> int {
        self.spec_micros_per_beat() * self.signature.numerator
    }

    /// Length of one bar in microseconds.
    pub fn micros_per_bar(&self) -> (mpb: u64)
        requires
            self.wf(),
        ensures
            mpb == self.spec_micros_per_bar(),
            mpb <= 64 * BEAT_SCALE_MICROS,
    {
        let beat = self.micros_per_beat();
        proof {
            assert(beat * self.signature.numerator as u64
                <= BEAT_SCALE_MICROS as int * 64) by (nonlinear_arith)
                requires
                    beat <= BEAT_SCALE_MICROS,
                    self.signature.numerator <= 64,
            ;
        }
        beat * self.signature.numerator as u64
    }

    /// Length of one grid step in microseconds for a given resolution:
    /// resolution 1 is one line per bar, resolution `r` otherwise puts
    /// `r` lines per whole note (so 4 is one line per quarter-note
    /// beat).
    pub open spec fn spec_micros_per_step(self, resolution: u32) -> int {
        if resolution == 1 {
            self.spec_micros_per_bar()
        } else {
            (self.spec_micros_per_beat() * 4) / resolution as int
        }
    }

    /// Length of one grid step in microseconds.
    pub fn micros_per_step(&self, resolution: u32) -> (mps: u64)
        requires
            self.wf(),
            resolution >= 1,
        ensures
            mps == self.spec_micros_per_step(resolution),
            mps <= 64 * BEAT_SCALE_MICROS,
    {
        if resolution == 1 {
            self.micros_per_bar()
        } else {
            let beat = self.micros_per_beat();
            (beat * 4) / resolution as u64
        }
    }

    /// Grid steps per bar for a given resolution: the beats of a bar
    /// divided by the beats of a step, rounded to the nearest integer.
    pub open spec fn spec_steps_per_bar(self, resolution: u32) -> int {
        if resolution == 1 {
            1
        } else {
            (self.signature.numerator * resolution + 2) as int / 4
        }
    }

    /// Grid steps per bar.  At least one for any well-formed map and
    /// positive resolution.
    pub fn steps_per_bar(&self, resolution: u32) -> (spb: u64)
        requires
            self.wf(),
            resolution >= 1,
        ensures
            spb == self.spec_steps_per_bar(resolution),
            spb >= 1,
    {
        if resolution == 1 {
            1
        } else {
            proof {
                assert(self.signature.numerator as int * resolution as int
                    <= 64 * u32::MAX as int) by (nonlinear_arith)
                    requires
                        self.signature.numerator <= 64,
                        resolution <= u32::MAX,
                ;
                assert(self.signature.numerator as int * resolution as int >= 2)
                    by (nonlinear_arith)
                    requires
                        self.signature.numerator >= 1,
                        resolution >= 2,
                ;
            }
            (self.signature.numerator as u64 * resolution as u64 + 2) / 4
        }
    }

    /// Convert a position in microseconds to one-indexed bar and beat
    /// numbers plus the leftover microseconds into the beat.
    pub fn timestamp_to_musical(&self, position_micros: u64) -> (musical: (u32, u32, u64))
        requires
            self.wf(),
            position_micros as int / self.spec_micros_per_beat()
                / self.signature.numerator as int + 1 <= u32::MAX as int,
        ensures
            ({
                let mpb = self.spec_micros_per_beat();
                let total_beats = position_micros as int / mpb;
                &&& musical.0 == total_beats / self.signature.numerator as int + 1
                &&& musical.1 == total_beats % self.signature.numerator as int + 1
                &&& musical.2 == position_micros as int % mpb
            }),
    {
        let mpb = self.micros_per_beat();
        let total_beats: u64 = position_micros / mpb;
        let bar_index: u64 = total_beats / self.signature.numerator as u64;
        let beat_in_bar: u64 = total_beats % self.signature.numerator as u64;
        (bar_index as u32 + 1, beat_in_bar as u32 + 1, position_micros % mpb)
    }

    /// Index of the first grid step at or after `start`, for step length
    /// `mps`.
    pub open spec fn spec_first_step(start: int, mps: int) -> int {
        (start + mps - 1) / mps
    }

    /// The set of grid-line times a window `[start, end]` produces: all
    /// multiples of the step length from the window's start to one
    /// millisecond past its end.
    pub open spec fn grid_times(self, resolution: u32, start: int, end: int) -> Set<int> {
        Set::new(
            |t: int|
                {
                    &&& start <= t <= end + 1000
                    &&& t % self.spec_micros_per_step(resolution) == 0
                },
        )
    }

    /// Generate the grid lines for the window `[start_micros,
    /// end_micros]`: one line per whole step index from the first step
    /// at or after the start to the last step no more than a millisecond
    /// past the end, each marked with its bar position.
    pub fn get_grid_lines(&self, start_micros: u64, end_micros: u64, resolution: u32) -> (lines:
        Vec<GridLine>)
        requires
            self.wf(),
            resolution >= 1,
            self.spec_micros_per_step(resolution) >= 1,
            start_micros <= end_micros,
            end_micros <= MAX_GRID_MICROS,
            (end_micros + 1000) as int / self.spec_micros_per_step(resolution)
                / self.spec_steps_per_bar(resolution) + 1 <= u32::MAX as int,
        ensures
            ({
                let mps = self.spec_micros_per_step(resolution);
                let spb = self.spec_steps_per_bar(resolution);
                let first = Self::spec_first_step(start_micros as int, mps);
                &&& forall|i: int|
                    0 <= i < lines@.len() ==> {
                        &&& (#[trigger] lines@[i]).time_micros == (first + i) * mps
                        &&& lines@[i].is_bar_start == ((first + i) % spb == 0)
                        &&& lines@[i].bar_number == (first + i) / spb + 1
                    }
                &&& lines@.len() == 0 ==> first * mps > end_micros + 1000
                &&& lines@.len() > 0 ==> (first + lines@.len() - 1) * mps <= end_micros + 1000
                    < (first + lines@.len()) * mps
            }),
    {
        let mps = self.micros_per_step(resolution);
        let spb = self.steps_per_bar(resolution);
        let ghost first = Self::spec_first_step(start_micros as int, mps as int);
        let mut step: u64 = (start_micros + mps - 1) / mps;
        let mut lines: Vec<GridLine> = Vec::new();
        let limit: u64 = end_micros + 1000;

        proof {
            lemma_div_pos_is_pos((start_micros + mps - 1) as int, mps as int);
            lemma_remainder_lower((start_micros + mps - 1) as int, mps as int);
            assert(first * mps <= start_micros + mps - 1);
        }

        while step * mps <= limit
            invariant
                self.wf(),
                resolution >= 1,
                mps == self.spec_micros_per_step(resolution),
                1 <= mps <= 64 * BEAT_SCALE_MICROS,
                spb == self.spec_steps_per_bar(resolution),
                spb >= 1,
                limit == end_micros + 1000,
                end_micros <= MAX_GRID_MICROS,
                limit as int / mps as int / spb as int + 1 <= u32::MAX as int,
                first == Self::spec_first_step(start_micros as int, mps as int),
                first <= step,
                lines@.len() == step - first,
                step * mps <= limit + mps,
                forall|i: int|
                    0 <= i < lines@.len() ==> {
                        &&& (#[trigger] lines@[i]).time_micros == (first + i) * mps
                        &&& lines@[i].is_bar_start == ((first + i) % spb as int == 0)
                        &&& lines@[i].bar_number == (first + i) / spb as int + 1
                    },
            decreases limit + mps - step * mps,
        {
            let time: u64 = step * mps;
            let bar_index: u64 = step / spb;
            proof {
                lemma_fundamental_div_mod(step as int * mps as int, mps as int);
                lemma_div_is_ordered(step as int * mps as int, limit as int, mps as int);
                assert(step as int * mps as int / mps as int == step as int) by (nonlinear_arith)
                    requires
                        mps >= 1,
                        step >= 0,
                ;
                lemma_div_is_ordered(step as int, limit as int / mps as int, spb as int);
                assert(bar_index <= limit as int / mps as int / spb as int);
            }
            lines.push(
                GridLine {
                    time_micros: time,
                    is_bar_start: step % spb == 0,
                    bar_number: bar_index as u32 + 1,
                },
            );
            step = step + 1;
            proof {
                lemma_mul_is_distributive_sub_other_way(
                    mps as int,
                    step as int,
                    1,
                );
                assert(step as int * mps as int == (step - 1) as int * mps as int + mps);
            }
        }
        proof {
            if lines@.len() == 0 {
                assert(step == first);
            } else {
                assert((first + lines@.len() - 1) == step - 1);
                lemma_mul_is_distributive_sub_other_way(mps as int, step as int, 1);
                assert((step - 1) as int * mps as int == step as int * mps as int - mps);
            }
        }
        lines
    }

    /// The times of the lines `get_grid_lines` returns are exactly
    /// `grid_times` of the same window: every line time is a step
    /// multiple inside the window, and every such multiple appears as a
    /// line.
    pub proof fn lemma_grid_lines_times(
        self,
        resolution: u32,
        start: int,
        end: int,
        lines: Seq<GridLine>,
    )
        requires
            self.wf(),
            resolution >= 1,
            self.spec_micros_per_step(resolution) >= 1,
            0 <= start <= end,
            ({
                let mps = self.spec_micros_per_step(resolution);
                let first = Self::spec_first_step(start, mps);
                &&& forall|i: int|
                    0 <= i < lines.len() ==> (#[trigger] lines[i]).time_micros == (first + i) * mps
                &&& lines.len() == 0 ==> first * mps > end + 1000
                &&& lines.len() > 0 ==> (first + lines.len() - 1) * mps <= end + 1000 < (first
                    + lines.len()) * mps
            }),
        ensures
            forall|t: int|
                self.grid_times(resolution, start, end).contains(t) <==> exists|i: int|
                    0 <= i < lines.len() && (#[trigger] lines[i]).time_micros == t,
    {
        let mps = self.spec_micros_per_step(resolution);
        let first = Self::spec_first_step(start, mps);
        let len = lines.len() as int;

        lemma_div_pos_is_pos(start + mps - 1, mps);
        lemma_remainder_lower(start + mps - 1, mps);
        lemma_fundamental_div_mod(start + mps - 1, mps);
        // The first step is the least multiple of the step length at or
        // after the window start.
        assert(first * mps >= start);
        assert(first * mps <= start + mps - 1);

        assert forall|t: int|
            self.grid_times(resolution, start, end).contains(t) implies exists|i: int|
            0 <= i < lines.len() && (#[trigger] lines[i]).time_micros == t by {
            let k = t / mps;
            lemma_fundamental_div_mod(t, mps);
            assert(t == k * mps);
            // k lies between the first and the last emitted step.
            assert(k >= first) by {
                if k < first {
                    vstd::arithmetic::mul::lemma_mul_inequality(k, first - 1, mps);
                    assert(k * mps <= (first - 1) * mps);
                    lemma_mul_is_distributive_sub_other_way(mps, first, 1);
                    assert((first - 1) * mps == first * mps - mps);
                    assert(t <= first * mps - mps);
                    assert(t < start);
                }
            }
            assert(k < first + len) by {
                if k >= first + len {
                    vstd::arithmetic::mul::lemma_mul_inequality(first + len, k, mps);
                    assert((first + len) * mps <= k * mps);
                    if len == 0 {
                        assert(first * mps > end + 1000);
                    }
                    assert(t > end + 1000);
                }
            }
            assert(lines[k - first].time_micros == (first + (k - first)) * mps);
            assert(lines[k - first].time_micros == t);
        }

        assert forall|t: int|
            (exists|i: int| 0 <= i < lines.len() && (#[trigger] lines[i]).time_micros == t)
            implies self.grid_times(resolution, start, end).contains(t) by {
            let i = choose|i: int|
                0 <= i < lines.len() && (#[trigger] lines[i]).time_micros == t;
            assert(t == (first + i) * mps);
            vstd::arithmetic::div_mod::lemma_mod_multiples_basic(first + i, mps);
            assert(t % mps == 0);
            assert(t >= start) by {
                vstd::arithmetic::mul::lemma_mul_inequality(first, first + i, mps);
            }
            assert(t <= end + 1000) by {
                vstd::arithmetic::mul::lemma_mul_inequality(first + i, first + len - 1, mps);
            }
        }
    }

    /// Generating the grid over `[a, b]` yields the same set of line
    /// times as generating it over `[a, m]` and `[m, b]` separately:
    /// the grid is anchored to whole step indices, not to the window it
    /// was requested through.
    pub proof fn lemma_grid_window_split(self, resolution: u32, a: int, m: int, b: int)
        requires
            self.wf(),
            resolution >= 1,
            self.spec_micros_per_step(resolution) >= 1,
            0 <= a <= m <= b,
        ensures
            self.grid_times(resolution, a, b) =~= self.grid_times(resolution, a, m).union(
                self.grid_times(resolution, m, b),
            ),
    {
    }
}

} // verus!
