use wavetable_synthesizer::math::FP_ONE;
use wavetable_synthesizer::oscillator::WaveTableOscillator;
use wavetable_synthesizer::waveforms::WaveForm;
use wavetable_synthesizer::wavetable::WaveTable;

/// One period of a sine wave, sampled into Q32 fixed point.
fn sine_table(n: usize) -> Vec<i64> {
    let mut v = Vec::with_capacity(n);
    for i in 0..n {
        let x = (i as f64) * std::f64::consts::TAU / (n as f64);
        v.push((x.sin() * 4294967296.0).round() as i64);
    }
    v
}

fn sine_oscillator(sample_rate: u32, freq_hz: i64) -> WaveTableOscillator {
    let wt = WaveTable::new(sine_table(256), WaveForm::Sine);
    let mut osc = WaveTableOscillator::new(sample_rate, wt);
    osc.set_frequency(freq_hz * FP_ONE);
    osc.activate();
    osc
}

#[test]
fn fresh_oscillator_is_inactive_and_silent() {
    let wt = WaveTable::new(sine_table(16), WaveForm::Sine);
    let osc = WaveTableOscillator::new(48000, wt);
    for t in [0u64, 1, 2, 47, 100_000] {
        assert_eq!(osc.render(t), 0);
    }
}

#[test]
fn inactive_oscillator_is_silent_whatever_the_parameters() {
    let mut osc = sine_oscillator(48000, 440);
    osc.decativate();
    for t in [0u64, 1, 7, 48000, u64::MAX / 2] {
        assert_eq!(osc.render(t), 0);
    }
}

#[test]
fn render_is_idempotent() {
    let osc = sine_oscillator(48000, 440);
    for t in [0u64, 1, 13, 4096, 123_456_789] {
        let first = osc.render(t);
        let second = osc.render(t);
        let third = osc.render(t);
        assert_eq!(first, second);
        assert_eq!(second, third);
    }
}

#[test]
fn render_reads_the_table_at_the_time_indexed_phase() {
    let osc = sine_oscillator(48000, 440);
    let wt = WaveTable::new(sine_table(256), WaveForm::Sine);
    // The per-sample increment for 440 Hz at 48 kHz, in phase units.
    let increment: i64 = (440 * FP_ONE) / 48000;
    assert_eq!(osc.render(0), wt.lookup(0));
    assert_eq!(osc.render(1), wt.lookup(increment));
    assert_eq!(osc.render(10), wt.lookup(10 * increment));
}

#[test]
fn parameters_read_back() {
    let mut osc = sine_oscillator(48000, 440);
    assert_eq!(osc.get_sample_rate(), 48000);
    assert_eq!(osc.get_frequency(), 440 * FP_ONE);
    assert_eq!(osc.get_waveform(), WaveForm::Sine);
    assert_eq!(osc.get_amplitude(), FP_ONE);
    osc.set_amplitude(FP_ONE / 2);
    assert_eq!(osc.get_amplitude(), FP_ONE / 2);
    osc.set_wavetable(WaveTable::from_waveform(WaveForm::Saw, 32));
    assert_eq!(osc.get_waveform(), WaveForm::Saw);
}

#[test]
fn amplitude_scales_the_sample() {
    let osc = sine_oscillator(48000, 440);
    let mut half = sine_oscillator(48000, 440);
    half.set_amplitude(FP_ONE / 2);
    for t in [1u64, 2, 3, 50] {
        // Q32 halving truncates toward zero, as `/` does on `i64`.
        let full = osc.render(t);
        assert_eq!(half.render(t), full / 2);
    }
}

#[test]
fn zero_frequency_holds_the_first_entry() {
    let mut osc = sine_oscillator(48000, 440);
    osc.set_frequency(0);
    let at0 = osc.render(0);
    for t in [1u64, 99, 48000] {
        assert_eq!(osc.render(t), at0);
    }
}

#[test]
fn negative_frequency_is_legal_and_bounded() {
    let mut osc = sine_oscillator(48000, 440);
    osc.set_frequency(-440 * FP_ONE);
    assert_eq!(osc.get_frequency(), -440 * FP_ONE);
    assert_eq!(osc.render(0), 0);
    for t in [1u64, 2, 107] {
        let s = osc.render(t);
        assert!(s.abs() <= 2 * FP_ONE);
    }
}

#[test]
fn one_period_of_sine_sums_to_nearly_zero() {
    // 440 Hz at 48 kHz: one period spans 48000/440 (about 109.09) samples.
    let osc = sine_oscillator(48000, 440);
    let mut sum: f64 = 0.0;
    for t in 0..=(48000 / 440) {
        sum += osc.render(t) as f64 / 4294967296.0;
    }
    assert!(
        sum.abs() < 0.05,
        "sum over one period was {sum}, expected close to zero"
    );
}
