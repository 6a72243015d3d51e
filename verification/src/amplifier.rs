//! Gain devices: the amplifier stage and the master output.
//!
//! Both scale the mixed signal of their children by a live Q32 gain factor;
//! the master output is the unique root device of a graph.

use vstd::prelude::*;

verus! {

use crate::math::{clamped, scale_fp, FP_ONE};

/// What a gain device yields for a mixed input signal: the input is
/// saturated into the sample range, scaled by the gain, and saturated again.
pub open spec fn gain_apply(gain: int, input: int) -> int {
    clamped(scale_fp(clamped(input), gain))
}

/// A gain stage; its view is its Q32 amplitude factor.
#[derive(Clone, Copy, Debug)]
pub struct Amplifier {
    amplitude: i64,
}

impl View for Amplifier {
    type V = i64;

    closed spec fn view(&self) -> i64 {
        self.amplitude
    }
}

impl Amplifier {
    /// A gain stage with the given initial factor.
    pub fn new(amplitude: i64) -> (r: Amplifier)
        ensures
            r@ == amplitude,
    {
        Amplifier { amplitude }
    }

    /// The current gain factor.
    pub fn get_amplitude(&self) -> (r: i64)
        ensures
            r == self@,
    {
        self.amplitude
    }

    /// Replace the gain factor.
    pub fn set_amplitude(&mut self, amplitude: i64)
        ensures
            final(self)@ == amplitude,
    {
        self.amplitude = amplitude;
    }
}

/// The terminal device of a graph: a master gain applied to the full mix;
/// its view is its Q32 amplitude factor.
#[derive(Clone, Copy, Debug)]
pub struct MasterOutput {
    amplitude: i64,
}

impl View for MasterOutput {
    type V = i64;

    closed spec fn view(&self) -> i64 {
        self.amplitude
    }
}

impl MasterOutput {
    /// A master output at unit gain.
    pub fn new() -> (r: MasterOutput)
        ensures
            r@ == FP_ONE,
    {
        MasterOutput { amplitude: FP_ONE }
    }

    /// The current master gain factor.
    pub fn get_amplitude(&self) -> (r: i64)
        ensures
            r == self@,
    {
        self.amplitude
    }

    /// Replace the master gain factor.
    pub fn set_amplitude(&mut self, amplitude: i64)
        ensures
            final(self)@ == amplitude,
    {
        self.amplitude = amplitude;
    }
}

} // verus!
