//! Core of an ambient-sound companion for a text-based game.
//!
//! The engine tails a growing game log, matches new lines against a
//! soundpack of trigger patterns grouped into audio channels, and drives
//! per-channel playback state machines.  Everything here is pure state
//! logic: file reading, terminal rendering and the audio backend live
//! outside and talk to this crate through plain values.

pub mod dispatch;
pub mod ignore;
pub mod manager;
pub mod pattern;
pub mod player;
pub mod select;
pub mod settings;
pub mod soundpack;
pub mod tailer;
pub mod threshold;
