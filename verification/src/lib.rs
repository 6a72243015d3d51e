//! A small wavetable synthesizer engine.
//!
//! The engine produces an audio signal one sample at a time from a tree of
//! signal-processing nodes: wavetable oscillators at the leaves, gain stages
//! above them, and a master output at the root.  All signal values are kept
//! in signed Q32 fixed point (the integer `2^32` stands for the real number
//! `1.0`) and a waveform phase is kept as a 32-bit fraction of one cycle, so
//! every step of the render path is exact integer arithmetic with a proved
//! absence of overflow.

pub mod amplifier;
pub mod error;
pub mod graph;
pub mod math;
pub mod oscillator;
pub mod slider_status;
pub mod source;
pub mod waveforms;
pub mod wavetable;
