//! Canonical periodic waveforms.
//!
//! The triangle, square and saw shapes are piecewise linear, so one period of
//! each is an exact function of the fixed-point phase.  A sine period has no
//! such closed integer form; sine tables are built from samples supplied by
//! the caller, and the `Sine` tag only records where they came from.

use vstd::prelude::*;

verus! {

use crate::math::{FP_ONE, TURN};

/// The shape a wavetable was built from.  `Table` marks a table filled from
/// an arbitrary sample sequence rather than a named shape.
#[derive(Clone, Copy, Debug, PartialEq, Eq, Structural)]
pub enum WaveForm {
    Sine,
    Triangle,
    Square,
    Saw,
    Table,
}

impl WaveForm {
    /// Whether one period of this shape can be generated exactly, sample by
    /// sample, from the phase alone.
    pub open spec fn has_generator(self) -> bool {
        self == WaveForm::Triangle || self == WaveForm::Square || self == WaveForm::Saw
    }

    /// Runtime test matching `has_generator`.
    pub fn is_generated(&self) -> (b: bool)
        ensures
            b == self.has_generator(),
    {
        match self {
            WaveForm::Triangle => true,
            WaveForm::Square => true,
            WaveForm::Saw => true,
            _ => false,
        }
    }

    /// One sample of this shape at the given phase.
    pub fn sample(&self, phase: u32) -> (s: i64)
        requires
            self.has_generator(),
        ensures
            s == wave_sample(*self, phase as int),
            -FP_ONE <= s <= FP_ONE,
    {
        match self {
            WaveForm::Triangle => triangle(phase),
            WaveForm::Square => square(phase),
            _ => saw(phase),
        }
    }

    /// The display name of the shape.
    pub fn name(&self) -> (s: String)
        ensures
            self == WaveForm::Sine ==> s@ == "Sine"@,
            self == WaveForm::Triangle ==> s@ == "Triangle"@,
            self == WaveForm::Square ==> s@ == "Square"@,
            self == WaveForm::Saw ==> s@ == "Saw"@,
            self == WaveForm::Table ==> s@ == "WaveTable"@,
    {
        match self {
            WaveForm::Sine => "Sine".to_string(),
            WaveForm::Triangle => "Triangle".to_string(),
            WaveForm::Square => "Square".to_string(),
            WaveForm::Saw => "Saw".to_string(),
            WaveForm::Table => "WaveTable".to_string(),
        }
    }
}

/// One period of the triangle wave: zero at phase 0, peaks of `1.0` at a
/// quarter turn and `-1.0` at three quarters.
pub open spec fn triangle_wave(p: int) -> int {
    let tn = TURN as int;
    if p < tn / 4 {
        4 * p
    } else if p < 3 * tn / 4 {
        2 * tn - 4 * p
    } else {
        4 * p - 4 * tn
    }
}

/// One period of the square wave: `1.0` on the first half turn (closed at
/// the midpoint), `-1.0` after it.
pub open spec fn square_wave(p: int) -> int {
    if p <= (TURN as int) / 2 {
        FP_ONE as int
    } else {
        -FP_ONE as int
    }
}

/// One period of the saw wave: rising from zero through `1.0` at the half
/// turn, where it drops to `-1.0` and rises back toward zero.
pub open spec fn saw_wave(p: int) -> int {
    let tn = TURN as int;
    if p < tn / 2 {
        2 * p
    } else {
        2 * p - 2 * tn
    }
}

/// Generator dispatch over the shapes that have one.
pub open spec fn wave_sample(wf: WaveForm, p: int) -> int {
    match wf {
        WaveForm::Triangle => triangle_wave(p),
        WaveForm::Square => square_wave(p),
        WaveForm::Saw => saw_wave(p),
        _ => 0,
    }
}

/// Triangle wave sample at a phase inside one cycle.
pub fn triangle(phase: u32) -> (s: i64)
    ensures
        s == triangle_wave(phase as int),
        -FP_ONE <= s <= FP_ONE,
{
    let p = phase as i64;
    if phase < 0x4000_0000 {
        4 * p
    } else if phase < 0xc000_0000 {
        2 * FP_ONE - 4 * p
    } else {
        4 * p - 4 * FP_ONE
    }
}

/// Square wave sample at a phase inside one cycle.
pub fn square(phase: u32) -> (s: i64)
    ensures
        s == square_wave(phase as int),
        -FP_ONE <= s <= FP_ONE,
{
    if phase <= 0x8000_0000 {
        FP_ONE
    } else {
        -FP_ONE
    }
}

/// Saw wave sample at a phase inside one cycle.
pub fn saw(phase: u32) -> (s: i64)
    ensures
        s == saw_wave(phase as int),
        -FP_ONE <= s <= FP_ONE,
{
    let p = phase as i64;
    if phase < 0x8000_0000 {
        2 * p
    } else {
        2 * p - 2 * FP_ONE
    }
}

} // verus!
