//! A verified playback core for id-tech music archives: an archive index over
//! WAD containers, a MUS bytecode decoder, a tick-to-microsecond timeline
//! builder, and the playback state machine that walks a timeline against a
//! wall clock with pause/resume/stop control.

pub mod ascii;
pub mod midi;
pub mod mus;
pub mod synth;
pub mod wad;
