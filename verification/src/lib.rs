//! Integer core of a terminal audio spectrum analyser: window selection,
//! spectrum-to-band mapping, display plans, input handling and screen layout.

pub mod fft;
pub mod display;
pub mod inputs;
pub mod control;
pub mod ui;
pub mod audio_thread;
