//! Frame-count arithmetic shared by the decode pipeline and the render
//! path: fade-ramp lengths and channel-mapping group bounds.

use vstd::prelude::*;

verus! {

/// Milliseconds of linear ramp applied wherever a render block
/// straddles a clip boundary, so edits and overlaps stay click-free.
pub const EDGE_FADE_MS: u32 = 5;

/// Number of samples covered by a fade ramp of `ms` milliseconds at
/// `sample_rate` frames per second, rounded down.
pub fn fade_samples_ms(sample_rate: u32, ms: u32) -> (n: usize)
    requires
        (sample_rate as int * ms as int) / 1000 <= usize::MAX as int,
    ensures
        n == (sample_rate as int * ms as int) / 1000,
{
    proof {
        assert(sample_rate as int * ms as int <= u32::MAX as int * u32::MAX as int)
            by (nonlinear_arith)
            requires
                sample_rate <= u32::MAX,
                ms <= u32::MAX,
        ;
    }
    ((sample_rate as u64 * ms as u64) / 1000) as usize
}

/// When narrowing `in_ch` interleaved channels to `out_ch`, output
/// channel `out_index` averages the contiguous group of input
/// channels `[lo, hi)` returned here: the input channel space divided
/// evenly, rounding the lower bound down and the upper bound up.
pub fn downmix_group(out_index: u32, in_ch: u32, out_ch: u32) -> (group: (u32, u32))
    requires
        1 <= out_ch < in_ch,
        out_index < out_ch,
    ensures
        group.0 == (out_index as int * in_ch as int) / out_ch as int,
        group.1 == if ((out_index + 1) as int * in_ch as int + out_ch as int - 1) / out_ch as int
            <= in_ch as int {
            ((out_index + 1) as int * in_ch as int + out_ch as int - 1) / out_ch as int
        } else {
            in_ch as int
        },
{
    proof {
        assert(out_index as int * in_ch as int <= u32::MAX as int * u32::MAX as int
            && (out_index + 1) as int * in_ch as int <= u32::MAX as int * u32::MAX as int
            && (out_index as int * in_ch as int) < (out_ch as int * in_ch as int))
            by (nonlinear_arith)
            requires
                out_index < out_ch,
                out_ch <= u32::MAX,
                in_ch <= u32::MAX,
                in_ch >= 1,
        ;
        vstd::arithmetic::div_mod::lemma_div_pos_is_pos(
            out_index as int * in_ch as int,
            out_ch as int,
        );
        vstd::arithmetic::div_mod::lemma_div_pos_is_pos(
            (out_index + 1) as int * in_ch as int + out_ch as int - 1,
            out_ch as int,
        );
        // The lower bound stays below the input channel count, so it
        // fits the result type.
        vstd::arithmetic::div_mod::lemma_multiply_divide_lt(
            out_index as int * in_ch as int,
            out_ch as int,
            in_ch as int,
        );
    }
    let lo: u32 = ((out_index as u64 * in_ch as u64) / out_ch as u64) as u32;
    let hi_raw: u64 = ((out_index + 1) as u64 * in_ch as u64 + out_ch as u64 - 1) / out_ch as u64;
    let hi: u32 = if hi_raw <= in_ch as u64 {
        hi_raw as u32
    } else {
        in_ch
    };
    (lo, hi)
}

/// When widening `in_ch` interleaved channels to more, output channel
/// `out_index` repeats input channel `out_index mod in_ch`.
pub fn upmix_source(out_index: u32, in_ch: u32) -> (source: u32)
    requires
        in_ch >= 1,
    ensures
        source == out_index as int % in_ch as int,
{
    out_index % in_ch
}

} // verus!
