//! Fixed-point arithmetic for the sample path.
//!
//! Samples, amplitudes and frequencies are signed Q32 fixed-point numbers:
//! the integer `FP_ONE` stands for the real value `1.0`.  A waveform phase is
//! a 32-bit fraction of one cycle, so `TURN` phase units make up a full
//! period; adding a whole number of turns to a phase does not change where it
//! falls inside the cycle.

use vstd::prelude::*;

verus! {

use vstd::arithmetic::div_mod::{
    lemma_fundamental_div_mod_converse_mod,
    lemma_mod_multiples_basic,
    lemma_mul_mod_noop_general,
    lemma_small_mod,
    lemma_div_multiples_vanish,
    lemma_div_is_ordered,
    lemma_div_pos_is_pos,
};
use vstd::arithmetic::mul::{lemma_mul_inequality, lemma_mul_nonnegative};

/// Number of phase units in one full waveform cycle.
pub const TURN: u64 = 0x1_0000_0000;

/// The fixed-point representation of the real number `1.0`.
pub const FP_ONE: i64 = 0x1_0000_0000;

/// Largest magnitude a rendered sample may take: `2^15` in real terms, far
/// beyond the `[-1, 1]` audio range, yet small enough that summing one sample
/// per node over any graph cannot overflow a 128-bit accumulator.
pub const SAMPLE_MAX: i64 = 0x8000_0000_0000;

/// Quotient of `a` by `b` rounded toward zero, the rounding used throughout
/// the fixed-point sample path.
pub open spec fn div_trunc(a: int, b: int) -> int
    recommends
        b > 0,
{
    if a >= 0 {
        a / b
    } else {
        -((-a) / b)
    }
}

/// `x` saturated into the representable sample range.
pub open spec fn clamped(x: int) -> int {
    if x < -SAMPLE_MAX {
        -SAMPLE_MAX as int
    } else if x > SAMPLE_MAX {
        SAMPLE_MAX as int
    } else {
        x
    }
}

/// Fixed-point product of a signal value `v` and a gain factor `a`.
pub open spec fn scale_fp(v: int, a: int) -> int {
    div_trunc(v * a, FP_ONE as int)
}

/// Linear interpolation from `a` toward `b` by the fraction `t / FP_ONE`.
pub open spec fn lerp_fp(a: int, b: int, t: int) -> int {
    a + div_trunc((b - a) * t, FP_ONE as int)
}

/// The phase reached at sample index `t` by a signal whose phase advances by
/// `inc` units per sample, reduced into one cycle.
pub open spec fn phase_at(inc: int, t: int) -> int {
    (t * inc) % (TURN as int)
}

proof fn lemma_div_trunc_between(d: int, t: int)
    requires
        0 <= t < FP_ONE,
    ensures
        d >= 0 ==> 0 <= div_trunc(d * t, FP_ONE as int) <= d,
        d <= 0 ==> d <= div_trunc(d * t, FP_ONE as int) <= 0,
{
    let f = FP_ONE as int;
    if d >= 0 {
        lemma_mul_nonnegative(d, t);
        lemma_div_pos_is_pos(d * t, f);
        lemma_mul_inequality(t, f, d);
        assert(d * t == t * d) by (nonlinear_arith);
        assert(d * f == f * d) by (nonlinear_arith);
        lemma_div_is_ordered(d * t, d * f, f);
        lemma_div_multiples_vanish(d, f);
    } else {
        let n = -d;
        lemma_mul_nonnegative(n, t);
        lemma_div_pos_is_pos(n * t, f);
        lemma_mul_inequality(t, f, n);
        assert(n * t == t * n) by (nonlinear_arith);
        assert(n * f == f * n) by (nonlinear_arith);
        lemma_div_is_ordered(n * t, n * f, f);
        lemma_div_multiples_vanish(n, f);
        assert(-(d * t) == n * t) by (nonlinear_arith)
            requires
                n == -d;
    }
}

/// Truncating division of a wide intermediate product by `FP_ONE`.
fn div_fp128(p: i128) -> (q: i128)
    requires
        p > i128::MIN,
    ensures
        q == div_trunc(p as int, FP_ONE as int),
{
    if p >= 0 {
        let m: u128 = p as u128;
        let q: u128 = m / (FP_ONE as u128);
        assert(q <= m);
        q as i128
    } else {
        let m: u128 = (-p) as u128;
        let q: u128 = m / (FP_ONE as u128);
        assert(q <= m);
        -(q as i128)
    }
}

/// Saturate a wide intermediate value into the sample range.
pub fn clamp_sample(x: i128) -> (r: i64)
    ensures
        r == clamped(x as int),
{
    if x < -(SAMPLE_MAX as i128) {
        -SAMPLE_MAX
    } else if x > SAMPLE_MAX as i128 {
        SAMPLE_MAX
    } else {
        x as i64
    }
}

/// Scale the signal value `v` by the Q32 gain `a`, saturating into the
/// sample range.
pub fn scale_sample(v: i64, a: i64) -> (r: i64)
    ensures
        r == clamped(scale_fp(v as int, a as int)),
        -SAMPLE_MAX <= r <= SAMPLE_MAX,
{
    proof {
        assert((v as int) * (a as int) <= 0x4000_0000_0000_0000_0000_0000_0000_0000
            && (v as int) * (a as int) >= -0x4000_0000_0000_0000_0000_0000_0000_0000)
            by (nonlinear_arith)
            requires
                -0x8000_0000_0000_0000 <= (v as int) && (v as int) <= 0x7fff_ffff_ffff_ffff,
                -0x8000_0000_0000_0000 <= (a as int) && (a as int) <= 0x7fff_ffff_ffff_ffff;
    }
    let p: i128 = (v as i128) * (a as i128);
    let q: i128 = div_fp128(p);
    clamp_sample(q)
}

/// Interpolate linearly from `a` toward `b` by the fraction `t / FP_ONE`;
/// the result always lies between `a` and `b`.
pub fn lerp(a: i64, b: i64, t: u32) -> (r: i64)
    ensures
        r == lerp_fp(a as int, b as int, t as int),
        a <= b ==> a <= r <= b,
        b <= a ==> b <= r <= a,
{
    let d: i128 = (b as i128) - (a as i128);
    proof {
        assert(d * (t as int) <= 0x4000_0000_0000_0000_0000_0000_0000_0000
            && d * (t as int) >= -0x4000_0000_0000_0000_0000_0000_0000_0000)
            by (nonlinear_arith)
            requires
                -0x1_0000_0000_0000_0000 <= d <= 0x1_0000_0000_0000_0000,
                0 <= (t as int) && (t as int) < 0x1_0000_0000;
        lemma_div_trunc_between(d as int, t as int);
    }
    let p: i128 = d * (t as i128);
    let q: i128 = div_fp128(p);
    (a as i128 + q) as i64
}

/// Truncating division of a signed value by a positive divisor.
pub fn div_trunc_i64(a: i64, b: u64) -> (q: i64)
    requires
        1 <= b,
    ensures
        q == div_trunc(a as int, b as int),
{
    if a >= 0 {
        let m: u64 = (a as u64) / b;
        assert(m <= a as u64);
        m as i64
    } else {
        let n: u128 = (-(a as i128)) as u128;
        let m: u128 = n / (b as u128);
        assert(m <= n);
        (-(m as i128)) as i64
    }
}

/// Reduce an arbitrary signed phase into a single cycle.
pub fn wrap_phase(x: i64) -> (r: u32)
    ensures
        r == (x as int) % (TURN as int),
{
    let ghost tn = TURN as int;
    if x >= 0 {
        let m: u64 = (x as u64) % TURN;
        proof {
            lemma_small_mod(m as nat, TURN as nat);
        }
        m as u32
    } else {
        let n: u128 = (-(x as i128)) as u128;
        let m: u64 = (n % (TURN as u128)) as u64;
        proof {
            let q = (n as int) / tn;
            assert(n as int == tn * q + (m as int)) by {
                vstd::arithmetic::div_mod::lemma_fundamental_div_mod(n as int, tn);
            }
            if m == 0 {
                assert(x as int == tn * (-q));
                lemma_mod_multiples_basic(-q, tn);
            } else {
                assert(x as int == tn * (-q - 1) + (tn - m));
                lemma_fundamental_div_mod_converse_mod(x as int, tn, -q - 1, tn - m);
            }
        }
        if m == 0 {
            0
        } else {
            (TURN - m) as u32
        }
    }
}

/// The phase reached at sample index `t` for a per-sample increment `inc`.
pub fn phase_of(inc: u32, t: u64) -> (r: u32)
    ensures
        r == phase_at(inc as int, t as int),
{
    let a: u64 = t % TURN;
    let b: u64 = inc as u64;
    proof {
        assert(a * b <= 0xffff_ffff_0000_0000) by (nonlinear_arith)
            requires
                0 <= a < 0x1_0000_0000,
                0 <= b < 0x1_0000_0000;
        lemma_mul_mod_noop_general(t as int, inc as int, TURN as int);
        lemma_small_mod(inc as nat, TURN as nat);
        lemma_small_mod(((a * b) % (TURN as int)) as nat, TURN as nat);
    }
    let r: u64 = (a * b) % TURN;
    r as u32
}

} // verus!
