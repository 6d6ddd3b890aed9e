//! The decode-pipeline control model: how a per-clip decoder worker
//! reacts to control messages, stream position and packet outcomes.
//!
//! The worker itself runs on its own thread, demuxing and decoding
//! with the host's codec stack; this module is the loop's decision
//! table.  Each turn the host feeds one event in and performs the
//! action handed back: that keeps the seek/fade bookkeeping — the part
//! that decides whether a block is ramped in after a seek — exact.

use crate::dsp::fade_samples_ms;
use vstd::prelude::*;

verus! {

/// Control messages a decoder worker handles.
pub enum DecoderCmd {
    /// Resume decoding from this source position, in frames.
    Seek(u64),
}

/// Milliseconds of ramp applied to the first samples pushed after a
/// seek, so playback cross-fades from silence instead of clicking.
pub const POST_SEEK_FADE_MS: u32 = 10;

/// The decoder loop's own state between turns.
#[derive(Clone, Copy, Debug, PartialEq, Eq, Structural)]
pub struct DecoderState {
    /// The source is exhausted; the worker idles, polling for seeks.
    pub at_eof: bool,
    /// Samples of the post-seek fade ramp still to be applied.
    pub fade_remaining_samples: u64,
}

/// One observation the host hands the decoder loop.
pub enum DecoderEvent {
    /// A control message arrived.
    Control(DecoderCmd),
    /// The control channel is gone: the clip was dropped.
    ControlClosed,
    /// The demuxer finished a requested seek, successfully or not.
    SeekFinished { ok: bool },
    /// No further packet can be read: end of stream or a fatal error.
    PacketUnavailable,
    /// A packet of another stream was read.
    PacketWrongStream,
    /// A packet failed to decode; single bad packets are skipped.
    PacketDecodeFailed,
    /// A packet decoded into samples ready to push.
    PacketDecoded,
    /// Nothing to do right now (idling at end of stream, or paused).
    Idle,
}

/// What the host should do after a turn of the loop.
#[derive(Clone, Copy, Debug, PartialEq, Eq, Structural)]
pub enum DecoderAction {
    /// Ask the demuxer to seek to this source frame, reset the
    /// resampler and staging, then report back with `SeekFinished`.
    PerformSeek { target_frames: u64 },
    /// Leave the loop and release the source.
    Exit,
    /// Sleep briefly before polling again.
    Sleep,
    /// Drop the packet and read the next one.
    SkipPacket,
    /// Stage, resample and push the decoded samples, applying the
    /// fade ramp where `fade_take` says so.
    PushSamples,
    /// Go straight to the next turn.
    Continue,
}

impl DecoderState {
    /// The state a worker starts in.
    pub fn new() -> (state: DecoderState)
        ensures
            !state.at_eof,
            state.fade_remaining_samples == 0,
    {
        DecoderState { at_eof: false, fade_remaining_samples: 0 }
    }

    /// One turn of the decoder loop: react to `event` with the output
    /// format `(output_sample_rate, output_channels)`.
    ///
    /// A seek request always primes the fade ramp — whether or not the
    /// demuxer's seek then succeeds — and a successful seek clears the
    /// end-of-stream flag so decoding resumes.  End of stream parks
    /// the loop rather than ending it; only a closed control channel
    /// exits.
    pub fn step(&mut self, event: DecoderEvent, output_sample_rate: u32, output_channels: u32) -> (
        action: DecoderAction)
        requires
            output_channels <= 64,
        ensures
            match event {
                DecoderEvent::Control(DecoderCmd::Seek(t)) => {
                    &&& action == (DecoderAction::PerformSeek { target_frames: t })
                    &&& final(self).at_eof == old(self).at_eof
                    &&& final(self).fade_remaining_samples == (output_sample_rate as int
                        * POST_SEEK_FADE_MS as int / 1000) * output_channels as int
                },
                DecoderEvent::ControlClosed => action == DecoderAction::Exit && *final(self)
                    == *old(self),
                DecoderEvent::SeekFinished { ok } => {
                    &&& action == DecoderAction::Continue
                    &&& final(self).at_eof == (old(self).at_eof && !ok)
                    &&& final(self).fade_remaining_samples == old(self).fade_remaining_samples
                },
                DecoderEvent::PacketUnavailable => action == DecoderAction::Continue && final(self).at_eof && final(self).fade_remaining_samples == old(self).fade_remaining_samples,
                DecoderEvent::PacketWrongStream => action == DecoderAction::SkipPacket && *final(self) == *old(self),
                DecoderEvent::PacketDecodeFailed => action == DecoderAction::SkipPacket && *final(self) == *old(self),
                DecoderEvent::PacketDecoded => action == DecoderAction::PushSamples && *final(self) == *old(self),
                DecoderEvent::Idle => action == DecoderAction::Sleep && *final(self) == *old(self),
            },
    {
        match event {
            DecoderEvent::Control(DecoderCmd::Seek(t)) => {
                proof {
                    assert((output_sample_rate as int * POST_SEEK_FADE_MS as int / 1000)
                        * output_channels as int <= (u32::MAX as int / 100) * 64)
                        by (nonlinear_arith)
                        requires
                            output_sample_rate <= u32::MAX,
                            output_channels <= 64,
                    ;
                }
                let per_channel = fade_samples_ms(output_sample_rate, POST_SEEK_FADE_MS);
                self.fade_remaining_samples = per_channel as u64 * output_channels as u64;
                DecoderAction::PerformSeek { target_frames: t }
            },
            DecoderEvent::ControlClosed => DecoderAction::Exit,
            DecoderEvent::SeekFinished { ok } => {
                if ok {
                    self.at_eof = false;
                }
                DecoderAction::Continue
            },
            DecoderEvent::PacketUnavailable => {
                self.at_eof = true;
                DecoderAction::Continue
            },
            DecoderEvent::PacketWrongStream => DecoderAction::SkipPacket,
            DecoderEvent::PacketDecodeFailed => DecoderAction::SkipPacket,
            DecoderEvent::PacketDecoded => DecoderAction::PushSamples,
            DecoderEvent::Idle => DecoderAction::Sleep,
        }
    }

    /// How many of the next `samples` pushed samples fall under the
    /// post-seek fade ramp.  Consumes that much of the ramp.
    pub fn fade_take(&mut self, samples: u64) -> (faded: u64)
        ensures
            faded == if old(self).fade_remaining_samples < samples {
                old(self).fade_remaining_samples
            } else {
                samples
            },
            final(self).fade_remaining_samples == old(self).fade_remaining_samples - faded,
            final(self).at_eof == old(self).at_eof,
    {
        let faded = if self.fade_remaining_samples < samples {
            self.fade_remaining_samples
        } else {
            samples
        };
        self.fade_remaining_samples = self.fade_remaining_samples - faded;
        faded
    }
}

} // verus!
