//! The wavetable oscillator: a phase-accumulation-free signal source.
//!
//! The phase used for a lookup is derived directly from the absolute sample
//! index and the current per-sample increment, never from a running
//! accumulator, so rendering a given index is idempotent and immune to drift
//! when the frequency changes.

use vstd::prelude::*;

verus! {

use crate::math::{
    clamped, div_trunc, div_trunc_i64, phase_at, phase_of, scale_fp, scale_sample, wrap_phase,
    FP_ONE, SAMPLE_MAX, TURN,
};
use crate::wavetable::{table_lookup, WaveTable};
use crate::waveforms::WaveForm;

/// Abstract state of an oscillator: its live parameters together with the
/// sample sequence and tag of the installed wavetable.
pub struct OscState {
    pub active: bool,
    pub sample_rate: u32,
    pub table: Seq<i64>,
    pub waveform: WaveForm,
    pub phase_increment: u32,
    pub amplitude: i64,
    pub frequency: i64,
}

/// The per-sample phase advance for a Q32 frequency at a sample rate,
/// reduced into one cycle.
pub open spec fn increment_for(freq: int, sr: int) -> int
    recommends
        sr >= 1,
{
    div_trunc(freq, sr) % (TURN as int)
}

/// The sample an oscillator state yields at sample index `t`: silence when
/// inactive, otherwise the wavetable sample at the phase implied by `t`,
/// scaled by the oscillator's amplitude.
pub open spec fn osc_render(o: OscState, t: int) -> int {
    if !o.active {
        0
    } else {
        clamped(scale_fp(table_lookup(o.table, phase_at(o.phase_increment as int, t)), o.amplitude as int))
    }
}

/// A signal source that reads one wavetable at a phase derived from the
/// absolute sample index.
#[derive(Clone, Debug)]
pub struct WaveTableOscillator {
    active: bool,
    sample_rate: u32,
    wavetable: WaveTable,
    phase_increment: u32,
    amplitude: i64,
    frequency: i64,
}

impl View for WaveTableOscillator {
    type V = OscState;

    closed spec fn view(&self) -> OscState {
        OscState {
            active: self.active,
            sample_rate: self.sample_rate,
            table: self.wavetable@,
            waveform: self.wavetable.spec_waveform(),
            phase_increment: self.phase_increment,
            amplitude: self.amplitude,
            frequency: self.frequency,
        }
    }
}

impl WaveTableOscillator {
    /// An oscillator is well formed when its table is, its sample rate is
    /// nonzero, and its stored increment matches its frequency.
    pub open spec fn valid(&self) -> bool {
        &&& 2 <= self@.table.len()
        &&& (forall|i: int|
            0 <= i < self@.table.len() ==> -SAMPLE_MAX <= #[trigger] self@.table[i] <= SAMPLE_MAX)
        &&& self@.sample_rate >= 1
        &&& self@.phase_increment == increment_for(self@.frequency as int, self@.sample_rate as int)
    }

    /// A fresh oscillator: inactive, unit amplitude, zero frequency.
    pub fn new(sample_rate: u32, wavetable: WaveTable) -> (r: WaveTableOscillator)
        requires
            sample_rate >= 1,
            wavetable.valid(),
        ensures
            r.valid(),
            !r@.active,
            r@.sample_rate == sample_rate,
            r@.table == wavetable@,
            r@.waveform == wavetable.spec_waveform(),
            r@.amplitude == FP_ONE,
            r@.frequency == 0,
            r@.phase_increment == 0,
    {
        WaveTableOscillator {
            active: false,
            sample_rate,
            wavetable,
            phase_increment: 0,
            amplitude: FP_ONE,
            frequency: 0,
        }
    }

    /// Let the oscillator contribute to the mix.
    pub fn activate(&mut self)
        ensures
            final(self)@ == (OscState { active: true, ..old(self)@ }),
            old(self).valid() ==> final(self).valid(),
    {
        self.active = true;
    }

    /// Silence the oscillator; its parameters are kept.
    pub fn decativate(&mut self)
        ensures
            final(self)@ == (OscState { active: false, ..old(self)@ }),
            old(self).valid() ==> final(self).valid(),
    {
        self.active = false;
    }

    /// The fixed sample rate this oscillator was built for.
    pub fn get_sample_rate(&self) -> (r: u32)
        ensures
            r == self@.sample_rate,
    {
        self.sample_rate
    }

    /// Replace the amplitude factor applied to every rendered sample.
    pub fn set_amplitude(&mut self, amplitude: i64)
        ensures
            final(self)@ == (OscState { amplitude: amplitude, ..old(self)@ }),
            old(self).valid() ==> final(self).valid(),
    {
        self.amplitude = amplitude;
    }

    /// The amplitude factor applied to every rendered sample.
    pub fn get_amplitude(&self) -> (r: i64)
        ensures
            r == self@.amplitude,
    {
        self.amplitude
    }

    /// Replace the frequency; the phase increment is recomputed so the new
    /// pitch takes effect from the next rendered sample.
    pub fn set_frequency(&mut self, frequency: i64)
        requires
            old(self)@.sample_rate >= 1,
        ensures
            final(self)@ == (OscState {
                frequency: frequency,
                phase_increment: increment_for(frequency as int, old(self)@.sample_rate as int) as u32,
                ..old(self)@
            }),
            old(self).valid() ==> final(self).valid(),
    {
        let raw: i64 = div_trunc_i64(frequency, self.sample_rate as u64);
        self.phase_increment = wrap_phase(raw);
        self.frequency = frequency;
        proof {
            vstd::arithmetic::div_mod::lemma_mod_bound(
                div_trunc(frequency as int, self@.sample_rate as int),
                TURN as int,
            );
        }
    }

    /// The frequency last set, in Q32 hertz.
    pub fn get_frequency(&self) -> (r: i64)
        ensures
            r == self@.frequency,
    {
        self.frequency
    }

    /// The shape of the installed wavetable.
    pub fn get_waveform(&self) -> (r: WaveForm)
        ensures
            r == self@.waveform,
    {
        self.wavetable.get_waveform()
    }

    /// Swap in a new wavetable as one whole value; a render sees either the
    /// old table or the new one, never a mixture.
    pub fn set_wavetable(&mut self, wavetable: WaveTable)
        ensures
            final(self)@ == (OscState {
                table: wavetable@,
                waveform: wavetable.spec_waveform(),
                ..old(self)@
            }),
            old(self).valid() && wavetable.valid() ==> final(self).valid(),
    {
        self.wavetable = wavetable;
    }

    /// One sample at the absolute sample index `time`.  An inactive
    /// oscillator yields exactly zero; an active one reads its table at the
    /// phase `time * phase_increment`, reduced into one cycle, and scales it
    /// by the amplitude.
    pub fn render(&self, time: u64) -> (r: i64)
        requires
            self.valid(),
        ensures
            r == osc_render(self@, time as int),
            !self@.active ==> r == 0,
            -SAMPLE_MAX <= r <= SAMPLE_MAX,
    {
        if !self.active {
            return 0;
        }
        let ph: u32 = phase_of(self.phase_increment, time);
        proof {
            vstd::arithmetic::div_mod::lemma_small_mod(ph as nat, TURN as nat);
        }
        let s: i64 = self.wavetable.lookup(ph as i64);
        scale_sample(s, self.amplitude)
    }
}

/// Rendering is a pure function of the oscillator state and the sample
/// index: any two renders of the same state at the same index return the
/// identical value, because no hidden accumulator takes part.
pub proof fn lemma_render_idempotent(o: OscState, t: int, r1: int, r2: int)
    requires
        r1 == osc_render(o, t),
        r2 == osc_render(o, t),
    ensures
        r1 == r2,
{
}

} // verus!
