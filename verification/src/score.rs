//! Fixed-point scores.
//!
//! Every confidence, strength and decay value in the kernel is a fraction of
//! one, held as an integer number of ten-thousandths: `UNIT` (10 000) stands
//! for 1.0, so 0.85 is written 8500. All arithmetic on scores is exact and
//! deterministic; multiplicative decay rounds down.

use vstd::prelude::*;

verus! {

/// A fraction of one, in ten-thousandths. Valid scores lie in `0 ..= UNIT`.
pub type Score = u32;

/// The fixed-point representation of 1.0.
pub const UNIT: u32 = 10000;

/// A score is valid when it does not exceed 1.0.
pub open spec fn score_ok(s: Score) -> bool {
    s <= UNIT
}

/// One multiplicative decay step: `floor(s * rate / UNIT)`.
pub open spec fn spec_decay_step(s: nat, rate: nat) -> nat {
    (s * rate) / (UNIT as nat)
}

/// A decay step at a rate below one never increases a score, and keeps it valid.
pub proof fn lemma_decay_step_le(s: nat, rate: nat)
    requires
        rate <= UNIT,
    ensures
        spec_decay_step(s, rate) <= s,
{
    assert((s * rate) / (UNIT as nat) <= s) by (nonlinear_arith)
        requires rate <= UNIT as nat,
    ;
}

/// Powers of a decay rate are taken at a finer scale — parts per billion —
/// so that rounding cannot compound visibly across a long gap.
pub const POW_SCALE: u64 = 1000000000;

/// A score's rate, expressed at the power scale.
pub open spec fn spec_rate_fine(rate: nat) -> nat {
    rate * 100000
}

/// The rate raised to the `n`-th power, at the power scale, rounded down
/// once per multiplication.
pub open spec fn spec_pow_fine(rate_fine: nat, n: nat) -> nat
    decreases n,
{
    if n == 0 {
        POW_SCALE as nat
    } else {
        spec_pow_fine(rate_fine, (n - 1) as nat) * rate_fine / (POW_SCALE as nat)
    }
}

/// `n` decay steps at `rate`: the score scaled by the `n`-th power of the
/// rate, the power carried at the fine scale.
pub open spec fn spec_decay_pow(s: nat, rate: nat, n: nat) -> nat {
    s * spec_pow_fine(spec_rate_fine(rate), n) / (POW_SCALE as nat)
}

/// A fine-scale power of a rate at most one never exceeds the scale.
pub proof fn lemma_pow_fine_le(rate_fine: nat, n: nat)
    requires
        rate_fine <= POW_SCALE,
    ensures
        spec_pow_fine(rate_fine, n) <= POW_SCALE,
    decreases n,
{
    if n > 0 {
        lemma_pow_fine_le(rate_fine, (n - 1) as nat);
        assert(spec_pow_fine(rate_fine, (n - 1) as nat) * rate_fine / (POW_SCALE as nat)
            <= POW_SCALE) by (nonlinear_arith)
            requires
                spec_pow_fine(rate_fine, (n - 1) as nat) <= POW_SCALE,
                rate_fine <= POW_SCALE,
        ;
    }
}

/// Fine-scale powers fall as the exponent grows.
pub proof fn lemma_pow_fine_monotone(rate_fine: nat, n1: nat, n2: nat)
    requires
        rate_fine <= POW_SCALE,
        n1 <= n2,
    ensures
        spec_pow_fine(rate_fine, n2) <= spec_pow_fine(rate_fine, n1),
    decreases n2,
{
    if n1 < n2 {
        lemma_pow_fine_monotone(rate_fine, n1, (n2 - 1) as nat);
        assert(spec_pow_fine(rate_fine, (n2 - 1) as nat) * rate_fine / (POW_SCALE as nat)
            <= spec_pow_fine(rate_fine, (n2 - 1) as nat)) by (nonlinear_arith)
            requires rate_fine <= POW_SCALE as nat,
        ;
    }
}

/// Decay never raises a score.
pub proof fn lemma_decay_pow_le(s: nat, rate: nat, n: nat)
    requires
        rate <= UNIT,
    ensures
        spec_decay_pow(s, rate, n) <= s,
{
    lemma_pow_fine_le(spec_rate_fine(rate), n);
    assert(s * spec_pow_fine(spec_rate_fine(rate), n) / (POW_SCALE as nat) <= s)
        by (nonlinear_arith)
        requires spec_pow_fine(spec_rate_fine(rate), n) <= POW_SCALE as nat,
    ;
}

/// A score of zero stays zero under decay.
pub proof fn lemma_decay_pow_zero(rate: nat, n: nat)
    ensures
        spec_decay_pow(0, rate, n) == 0,
{
}

/// One exact decay step, `floor(s * rate / UNIT)`.
pub fn decay_step(s: Score, rate: Score) -> (r: Score)
    requires
        score_ok(s),
        score_ok(rate),
    ensures
        r as nat == spec_decay_step(s as nat, rate as nat),
        score_ok(r),
        r <= s,
{
    proof {
        lemma_decay_step_le(s as nat, rate as nat);
    }
    (s * rate) / UNIT
}

/// Whether a score times a fine power still reaches the scale, i.e. whether
/// the scaled product is nonzero.
fn still_visible(s: Score, p: u64) -> (r: bool)
    requires
        score_ok(s),
        p <= POW_SCALE,
    ensures
        r == (s as nat * p as nat >= POW_SCALE as nat),
{
    proof {
        assert(s as nat * p as nat <= UNIT as nat * POW_SCALE as nat) by (nonlinear_arith)
            requires s <= UNIT, p <= POW_SCALE,
        ;
    }
    (s as u64) * p >= POW_SCALE
}

/// Applies `n` decay steps at `rate`, carrying the power of the rate at the
/// fine scale. The loop stops early once the result can only be zero.
pub fn decay_pow(s: Score, rate: Score, n: u64) -> (r: Score)
    requires
        score_ok(s),
        rate <= UNIT - 3,
    ensures
        r as nat == spec_decay_pow(s as nat, rate as nat, n as nat),
        score_ok(r),
        r <= s,
{
    let rate_fine: u64 = rate as u64 * 100000;
    let mut p: u64 = POW_SCALE;
    let mut i: u64 = 0;
    while i < n && still_visible(s, p)
        invariant
            i <= n,
            rate_fine == spec_rate_fine(rate as nat),
            rate_fine <= POW_SCALE - 300000,
            p <= POW_SCALE,
            p as nat == spec_pow_fine(rate_fine as nat, i as nat),
            score_ok(s),
        decreases n - i,
    {
        proof {
            assert(p as nat * rate_fine as nat <= POW_SCALE as nat * POW_SCALE as nat)
                by (nonlinear_arith)
                requires p <= POW_SCALE, rate_fine <= POW_SCALE,
            ;
            assert(p as nat * rate_fine as nat / (POW_SCALE as nat) <= p as nat)
                by (nonlinear_arith)
                requires rate_fine <= POW_SCALE as nat,
            ;
        }
        p = ((p as u128 * rate_fine as u128) / (POW_SCALE as u128)) as u64;
        i = i + 1;
    }
    proof {
        lemma_decay_pow_le(s as nat, rate as nat, n as nat);
        if i < n {
            // Early exit: the result at `i` multiplications is already zero,
            // and more multiplications only shrink the power.
            lemma_pow_fine_monotone(rate_fine as nat, i as nat, n as nat);
            assert(s as nat * spec_pow_fine(rate_fine as nat, n as nat) <= s as nat
                * spec_pow_fine(rate_fine as nat, i as nat)) by (nonlinear_arith)
                requires
                    spec_pow_fine(rate_fine as nat, n as nat) <= spec_pow_fine(
                        rate_fine as nat,
                        i as nat,
                    ),
            ;
            assert(s as nat * spec_pow_fine(rate_fine as nat, i as nat) < POW_SCALE as nat);
            assert(s as nat * spec_pow_fine(rate_fine as nat, n as nat) < POW_SCALE as nat);
            assert(spec_decay_pow(s as nat, rate as nat, n as nat) == 0);
        } else {
            assert(s as nat * p as nat <= UNIT as nat * POW_SCALE as nat) by (nonlinear_arith)
                requires s <= UNIT, p <= POW_SCALE,
            ;
            assert(s as nat * p as nat / (POW_SCALE as nat) <= s as nat) by (nonlinear_arith)
                requires p <= POW_SCALE as nat,
            ;
        }
    }
    if i < n {
        return 0;
    }
    (((s as u128) * (p as u128) / (POW_SCALE as u128)) as u64) as u32
}

/// Addition clamped to 1.0.
pub fn add_clamped(s: Score, d: Score) -> (r: Score)
    requires
        score_ok(s),
        score_ok(d),
    ensures
        r as int == if s + d <= UNIT { s + d } else { UNIT as int },
        score_ok(r),
{
    if s + d <= UNIT {
        s + d
    } else {
        UNIT
    }
}

/// Subtraction clamped to 0.0.
pub fn sub_clamped(s: Score, d: Score) -> (r: Score)
    ensures
        r as int == if s >= d { s - d } else { 0 },
        r <= s,
{
    if s >= d {
        s - d
    } else {
        0
    }
}

} // verus!
