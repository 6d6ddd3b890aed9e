//! Continuous DSP parameters, carried as IEEE-754 single-precision bit
//! patterns.
//!
//! The model never does floating-point arithmetic: a gain or a filter
//! frequency is an opaque 32-bit pattern that commands store, publish and
//! restore.  Where the engine's rules compare a parameter against a
//! threshold (the audibility floor, the master-gain dead band), the
//! comparison is made on the bit patterns as unsigned integers, which
//! orders exactly like the encoded values as long as both are
//! non-negative and finite — the well-formedness bounds below keep them
//! in that range.

use vstd::prelude::*;

verus! {

/// Bit pattern of 0.0.
pub const BITS_ZERO: u32 = 0x0000_0000;

/// Bit pattern of 1.0.
pub const BITS_ONE: u32 = 0x3F80_0000;

/// Bit pattern of 2.0, the upper bound of the gain range.
pub const BITS_TWO: u32 = 0x4000_0000;

/// Bit pattern of -1.0, the left end of the pan range.
pub const BITS_NEG_ONE: u32 = 0xBF80_0000;

/// Bit pattern of 10^-3, the audibility floor for a track gain.
pub const GAIN_FLOOR_BITS: u32 = 0x3A83_126F;

/// Bit pattern of 1.001: a master gain above this leaves the unity dead
/// band and must be applied to the mix bus.
pub const MASTER_UNITY_HI_BITS: u32 = 0x3F80_20C5;

/// Bit pattern of 0.999: a master gain below this leaves the unity dead
/// band and must be applied to the mix bus.
pub const MASTER_UNITY_LO_BITS: u32 = 0x3F7F_BE77;

/// A gain pattern is valid when it encodes a finite value in [0, 2]:
/// exactly the patterns that are at most the pattern of 2.0.
pub open spec fn gain_bits_valid(bits: u32) -> bool {
    bits <= BITS_TWO
}

/// A pan pattern is valid when it encodes a finite value in [-1, 1]:
/// either a non-negative pattern at most that of 1.0, or a sign-flagged
/// pattern at most that of -1.0.
pub open spec fn pan_bits_valid(bits: u32) -> bool {
    bits <= BITS_ONE || (0x8000_0000 <= bits && bits <= BITS_NEG_ONE)
}

/// A track gain clears the audibility floor when its pattern exceeds the
/// pattern of 10^-3.
pub open spec fn gain_above_floor(bits: u32) -> bool {
    bits > GAIN_FLOOR_BITS
}

/// The master gain is applied only outside the dead band of one
/// thousandth around unity.
pub open spec fn master_gain_applies(bits: u32) -> bool {
    bits > MASTER_UNITY_HI_BITS || bits < MASTER_UNITY_LO_BITS
}

/// Filter shapes a parametric EQ band can take.
#[derive(Clone, Copy, Debug, PartialEq, Eq, Structural)]
pub enum EqFilterType {
    LowPass,
    HighPass,
    BandPass,
    Notch,
    Peaking,
    LowShelf,
    HighShelf,
}

/// Published parameter record of one EQ band.  Frequency, Q and gain are
/// single-precision bit patterns.
#[derive(Clone, Copy, Debug, PartialEq, Eq, Structural)]
pub struct EqParams {
    pub filter_type: EqFilterType,
    pub freq_bits: u32,
    pub q_bits: u32,
    pub gain_db_bits: u32,
    pub active: bool,
}

/// Bit pattern of 75.0 Hz, the default high-pass corner.
pub const EQ_FREQ_HPF_BITS: u32 = 0x4296_0000;

/// Bit pattern of 200.0 Hz, the first default peaking centre.
pub const EQ_FREQ_LOW_PEAK_BITS: u32 = 0x4348_0000;

/// Bit pattern of 2000.0 Hz, the second default peaking centre.
pub const EQ_FREQ_HIGH_PEAK_BITS: u32 = 0x44FA_0000;

/// Bit pattern of 10000.0 Hz, the default high-shelf corner.
pub const EQ_FREQ_SHELF_BITS: u32 = 0x461C_4000;

/// Bit pattern of 0.707, the default Q of the high-pass and shelf
/// bands.
pub const EQ_Q_DEFAULT_BITS: u32 = 0x3F34_FDF4;

/// The default chain of four bands: an active high-pass at 75 Hz, two
/// bypassed peaking bands at 200 Hz and 2 kHz with unity Q, and a
/// bypassed high shelf at 10 kHz.
pub open spec fn spec_default_eq_chain() -> Seq<EqParams> {
    seq![
        EqParams {
            filter_type: EqFilterType::HighPass,
            freq_bits: EQ_FREQ_HPF_BITS,
            q_bits: EQ_Q_DEFAULT_BITS,
            gain_db_bits: BITS_ZERO,
            active: true,
        },
        EqParams {
            filter_type: EqFilterType::Peaking,
            freq_bits: EQ_FREQ_LOW_PEAK_BITS,
            q_bits: BITS_ONE,
            gain_db_bits: BITS_ZERO,
            active: false,
        },
        EqParams {
            filter_type: EqFilterType::Peaking,
            freq_bits: EQ_FREQ_HIGH_PEAK_BITS,
            q_bits: BITS_ONE,
            gain_db_bits: BITS_ZERO,
            active: false,
        },
        EqParams {
            filter_type: EqFilterType::HighShelf,
            freq_bits: EQ_FREQ_SHELF_BITS,
            q_bits: EQ_Q_DEFAULT_BITS,
            gain_db_bits: BITS_ZERO,
            active: false,
        },
    ]
}

/// Build the default EQ chain.
pub fn default_eq_chain() -> (chain: Vec<EqParams>)
    ensures
        chain@ == spec_default_eq_chain(),
{
    let mut chain: Vec<EqParams> = Vec::new();
    chain.push(EqParams {
        filter_type: EqFilterType::HighPass,
        freq_bits: EQ_FREQ_HPF_BITS,
        q_bits: EQ_Q_DEFAULT_BITS,
        gain_db_bits: BITS_ZERO,
        active: true,
    });
    chain.push(EqParams {
        filter_type: EqFilterType::Peaking,
        freq_bits: EQ_FREQ_LOW_PEAK_BITS,
        q_bits: BITS_ONE,
        gain_db_bits: BITS_ZERO,
        active: false,
    });
    chain.push(EqParams {
        filter_type: EqFilterType::Peaking,
        freq_bits: EQ_FREQ_HIGH_PEAK_BITS,
        q_bits: BITS_ONE,
        gain_db_bits: BITS_ZERO,
        active: false,
    });
    chain.push(EqParams {
        filter_type: EqFilterType::HighShelf,
        freq_bits: EQ_FREQ_SHELF_BITS,
        q_bits: EQ_Q_DEFAULT_BITS,
        gain_db_bits: BITS_ZERO,
        active: false,
    });
    proof {
        assert(chain@ =~= spec_default_eq_chain());
    }
    chain
}

/// Published parameter record of the per-track compressor.  Threshold,
/// ratio, times and makeup gain are single-precision bit patterns.
#[derive(Clone, Copy, Debug, PartialEq, Eq, Structural)]
pub struct CompressorParams {
    pub is_active: bool,
    pub threshold_db_bits: u32,
    pub ratio_bits: u32,
    pub attack_ms_bits: u32,
    pub release_ms_bits: u32,
    pub makeup_gain_db_bits: u32,
}

/// Bit pattern of -20.0 dB, the default threshold.
pub const COMP_THRESHOLD_BITS: u32 = 0xC1A0_0000;

/// Bit pattern of 4.0, the default ratio.
pub const COMP_RATIO_BITS: u32 = 0x4080_0000;

/// Bit pattern of 5.0 ms, the default attack.
pub const COMP_ATTACK_BITS: u32 = 0x40A0_0000;

/// Bit pattern of 50.0 ms, the default release.
pub const COMP_RELEASE_BITS: u32 = 0x4248_0000;

/// The compressor's defaults: active, -20 dB threshold, 4:1 ratio, 5 ms
/// attack, 50 ms release, no makeup gain.
pub open spec fn spec_default_compressor() -> CompressorParams {
    CompressorParams {
        is_active: true,
        threshold_db_bits: COMP_THRESHOLD_BITS,
        ratio_bits: COMP_RATIO_BITS,
        attack_ms_bits: COMP_ATTACK_BITS,
        release_ms_bits: COMP_RELEASE_BITS,
        makeup_gain_db_bits: BITS_ZERO,
    }
}

/// Build the default compressor record.
pub fn default_compressor() -> (params: CompressorParams)
    ensures
        params == spec_default_compressor(),
{
    CompressorParams {
        is_active: true,
        threshold_db_bits: COMP_THRESHOLD_BITS,
        ratio_bits: COMP_RATIO_BITS,
        attack_ms_bits: COMP_ATTACK_BITS,
        release_ms_bits: COMP_RELEASE_BITS,
        makeup_gain_db_bits: BITS_ZERO,
    }
}

} // verus!
