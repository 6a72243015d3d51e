use wavetable_synthesizer::math::{
    clamp_sample, div_trunc_i64, lerp, scale_sample, wrap_phase, FP_ONE, SAMPLE_MAX,
};
use wavetable_synthesizer::waveforms::{saw, square, triangle, WaveForm};
use wavetable_synthesizer::wavetable::WaveTable;

const HALF: i64 = 0x8000_0000;
const QUARTER_TURN: u32 = 0x4000_0000;
const HALF_TURN: u32 = 0x8000_0000;

#[test]
fn square_is_high_then_low() {
    assert_eq!(square(0), FP_ONE);
    assert_eq!(square(QUARTER_TURN), FP_ONE);
    assert_eq!(square(HALF_TURN), FP_ONE);
    assert_eq!(square(HALF_TURN + 1), -FP_ONE);
    assert_eq!(square(u32::MAX), -FP_ONE);
}

#[test]
fn saw_rises_and_drops_at_half_turn() {
    assert_eq!(saw(0), 0);
    assert_eq!(saw(QUARTER_TURN), HALF);
    assert_eq!(saw(HALF_TURN - 1), FP_ONE - 2);
    assert_eq!(saw(HALF_TURN), -FP_ONE);
    assert_eq!(saw(HALF_TURN + QUARTER_TURN), -HALF);
}

#[test]
fn triangle_peaks_at_quarter_turns() {
    assert_eq!(triangle(0), 0);
    assert_eq!(triangle(QUARTER_TURN), FP_ONE);
    assert_eq!(triangle(HALF_TURN), 0);
    assert_eq!(triangle(3 * QUARTER_TURN), -FP_ONE);
}

#[test]
fn waveform_generator_availability() {
    assert!(WaveForm::Triangle.is_generated());
    assert!(WaveForm::Square.is_generated());
    assert!(WaveForm::Saw.is_generated());
    assert!(!WaveForm::Sine.is_generated());
    assert!(!WaveForm::Table.is_generated());
}

#[test]
fn waveform_names() {
    assert_eq!(WaveForm::Sine.name(), "Sine");
    assert_eq!(WaveForm::Triangle.name(), "Triangle");
    assert_eq!(WaveForm::Square.name(), "Square");
    assert_eq!(WaveForm::Saw.name(), "Saw");
    assert_eq!(WaveForm::Table.name(), "WaveTable");
}

#[test]
fn lerp_midpoint_and_endpoints() {
    assert_eq!(lerp(0, FP_ONE, HALF_TURN), HALF);
    assert_eq!(lerp(0, FP_ONE, 0), 0);
    assert_eq!(lerp(-FP_ONE, FP_ONE, HALF_TURN), 0);
    assert_eq!(lerp(FP_ONE, 0, HALF_TURN), HALF);
    assert_eq!(lerp(100, 100, 12345), 100);
}

#[test]
fn scale_sample_exact_products() {
    // 1.0 * 0.5 == 0.5
    assert_eq!(scale_sample(FP_ONE, HALF), HALF);
    // -0.75 * 0.5 == -0.375
    assert_eq!(scale_sample(-3 * (FP_ONE / 4), HALF), -3 * (FP_ONE / 8));
    // saturation at the sample bound
    assert_eq!(scale_sample(SAMPLE_MAX, 100 * FP_ONE), SAMPLE_MAX);
    assert_eq!(scale_sample(-SAMPLE_MAX, 100 * FP_ONE), -SAMPLE_MAX);
}

#[test]
fn clamp_sample_saturates() {
    assert_eq!(clamp_sample(0), 0);
    assert_eq!(clamp_sample((SAMPLE_MAX as i128) + 1), SAMPLE_MAX);
    assert_eq!(clamp_sample(-(SAMPLE_MAX as i128) - 1), -SAMPLE_MAX);
    assert_eq!(clamp_sample(42), 42);
}

#[test]
fn division_truncates_toward_zero() {
    assert_eq!(div_trunc_i64(7, 2), 3);
    assert_eq!(div_trunc_i64(-7, 2), -3);
    assert_eq!(div_trunc_i64(0, 5), 0);
    assert_eq!(div_trunc_i64(i64::MIN, 1), i64::MIN);
}

#[test]
fn wrap_phase_reduces_into_one_cycle() {
    assert_eq!(wrap_phase(0), 0);
    assert_eq!(wrap_phase(1), 1);
    assert_eq!(wrap_phase(0x1_0000_0000), 0);
    assert_eq!(wrap_phase(0x1_0000_0005), 5);
    assert_eq!(wrap_phase(-1), u32::MAX);
    assert_eq!(wrap_phase(-0x1_0000_0000), 0);
}

#[test]
fn lookup_interpolates_between_entries() {
    let table = vec![0i64, FP_ONE, 0, -FP_ONE];
    let wt = WaveTable::new(table, WaveForm::Table);
    assert_eq!(wt.len(), 4);
    // Exactly on entries.
    assert_eq!(wt.lookup(0), 0);
    assert_eq!(wt.lookup(QUARTER_TURN as i64), FP_ONE);
    assert_eq!(wt.lookup(HALF_TURN as i64), 0);
    // Halfway between the first two entries.
    assert_eq!(wt.lookup((QUARTER_TURN / 2) as i64), HALF);
    // Halfway between the last entry and the wrapped first entry.
    assert_eq!(wt.lookup((3 * QUARTER_TURN + QUARTER_TURN / 2) as i64), -HALF);
}

#[test]
fn lookup_is_periodic() {
    let table = vec![7 * FP_ONE / 8, -FP_ONE / 3, FP_ONE / 5, 11, -2347];
    let wt = WaveTable::new(table, WaveForm::Table);
    let turn: i64 = 0x1_0000_0000;
    for &p in &[0i64, 1, 12345678, (HALF_TURN as i64), -99999, -turn + 3] {
        assert_eq!(wt.lookup(p), wt.lookup(p + turn));
        assert_eq!(wt.lookup(p), wt.lookup(p + 2 * turn));
    }
}

#[test]
fn smallest_table_interpolates_between_its_two_entries() {
    let wt = WaveTable::new(vec![0, FP_ONE], WaveForm::Table);
    assert_eq!(wt.len(), 2);
    assert_eq!(wt.lookup(0), 0);
    assert_eq!(wt.lookup(HALF_TURN as i64), FP_ONE);
    // A quarter turn sits halfway between the two entries.
    assert_eq!(wt.lookup(QUARTER_TURN as i64), HALF);
    // Past the second entry the lookup wraps back toward the first.
    assert_eq!(wt.lookup((3 * QUARTER_TURN) as i64), HALF);
}

#[test]
fn from_waveform_samples_one_period() {
    let wt = WaveTable::from_waveform(WaveForm::Square, 4);
    assert_eq!(wt.len(), 4);
    assert_eq!(wt.get_waveform(), WaveForm::Square);
    assert_eq!(wt.lookup(0), FP_ONE);
    assert_eq!(wt.lookup(QUARTER_TURN as i64), FP_ONE);
    assert_eq!(wt.lookup(HALF_TURN as i64), FP_ONE);
    assert_eq!(wt.lookup((3 * QUARTER_TURN) as i64), -FP_ONE);
}

#[test]
fn from_fn_matches_generated_square() {
    let by_fn = WaveTable::from_fn(
        |p: u32| {
            if p <= HALF_TURN {
                FP_ONE
            } else {
                -FP_ONE
            }
        },
        64,
    );
    let by_shape = WaveTable::from_waveform(WaveForm::Square, 64);
    assert_eq!(by_fn.get_waveform(), WaveForm::Table);
    assert_eq!(by_fn.len(), 64);
    for i in 0..64u32 {
        let p = (i as i64) * 0x0400_0000;
        assert_eq!(by_fn.lookup(p), by_shape.lookup(p));
    }
}
