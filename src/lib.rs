//! Playback decisions, position tracking and spectrum display state for a
//! terminal music player, with their contracts proved by Verus.
//!
//! - [`engine`]: the playback engine's response to commands and polls.
//! - [`capture`]: the adapter that hands played samples to the visualizer.
//! - [`visualizer`] and [`bands`]: smoothed frequency bars, waveform, decay.
//! - [`player`]: playlist, shuffle, repeat, volume and sleep timer.
//! - [`library`], [`remote`], [`display`]: tracks, remote requests, and text.
pub mod bands;
pub mod capture;
pub mod display;
pub mod engine;
pub mod library;
pub mod modes;
pub mod player;
pub mod remote;
pub mod sums;
pub mod text;
pub mod visualizer;
