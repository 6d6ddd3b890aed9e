//! Core model of a multi-track audio engine: timeline clips, tracks,
//! transport, tempo grid, undoable editing commands, and the block
//! scheduling that drives rendering.
//!
//! All timeline quantities are integer frame counts at the engine
//! sample rate; continuous DSP parameters (gains, pans, filter
//! settings) are carried as IEEE-754 single-precision bit patterns and
//! never computed on here.  The host around the library decodes,
//! resamples and mixes actual samples by executing the schedules and
//! state machines this crate computes and proves correct.
//!
//! - [`clip`], [`track`], [`engine`]: the mix graph and the render
//!   schedule.
//! - [`commands`], [`history`], [`session`]: undoable edits over the
//!   live graph.
//! - [`tempo`]: the musical grid.
//! - [`manifest`], [`export`]: persistence and the offline bounce
//!   schedule.
//! - [`decoder`], [`dsp`], [`meter`]: the decode pipeline's control
//!   state and integer bookkeeping.
//! - [`laws`]: the model's guarantees, stated and proved.

pub mod clip;
pub mod commands;
pub mod decoder;
pub mod dsp;
pub mod engine;
pub mod export;
pub mod history;
pub mod laws;
pub mod manifest;
pub mod meter;
pub mod params;
pub mod session;
pub mod tempo;
pub mod track;
