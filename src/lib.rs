//! A tempo-synchronised musical clock engine for live coding: a local buffer of the
//! shared tempo clock's session, a command protocol to query and change it, per-tick
//! dispatch of bar-aligned events to subscriber streams, and the MIDI bytes they send.
//! Beats are counted in millionths, tempi in hundredths of a beat per minute.

pub mod clock;
pub mod config;
pub mod device;
pub mod midi;
pub mod numtext;
pub mod pacing;
pub mod protocol;
pub mod report;
pub mod streams;
pub mod timeline;
