//! Cross-cutting laws of the kernel, stated and proved once.
//!
//! Single-function guarantees — version monotonicity, the absorbing status
//! of canceled outputs, the rejection window for stale plans, the exact
//! per-tick decay rules — live in the contracts of `reduce`, `tick_step`,
//! the consolidator and the managers. What stands here relates several
//! steps to each other.

use vstd::prelude::*;
use vstd::arithmetic::div_mod::lemma_div_is_ordered;
use crate::event::{Output, OutputId};
use crate::lhim::{DECAY_RATE, spec_decayed_score};
use crate::score::{
    Score, UNIT, lemma_pow_fine_monotone, score_ok, spec_decay_pow, spec_pow_fine, spec_rate_fine,
};
use crate::state::spec_cancel_by_id;

verus! {

/// Decay is monotone in time: at a rate at most one, more elapsed steps
/// never yield a larger score.
pub proof fn lemma_decay_pow_monotone(s: nat, rate: nat, n1: nat, n2: nat)
    requires
        rate <= UNIT,
        n1 <= n2,
    ensures
        spec_decay_pow(s, rate, n2) <= spec_decay_pow(s, rate, n1),
{
    lemma_pow_fine_monotone(spec_rate_fine(rate), n1, n2);
    assert(s * spec_pow_fine(spec_rate_fine(rate), n2) <= s * spec_pow_fine(
        spec_rate_fine(rate),
        n1,
    )) by (nonlinear_arith)
        requires
            spec_pow_fine(spec_rate_fine(rate), n2) <= spec_pow_fine(spec_rate_fine(rate), n1),
    ;
    lemma_div_is_ordered(
        (s * spec_pow_fine(spec_rate_fine(rate), n2)) as int,
        (s * spec_pow_fine(spec_rate_fine(rate), n1)) as int,
        crate::score::POW_SCALE as int,
    );
}

/// A long-horizon intent without reinforcement never grows stronger: its
/// decayed score over a longer gap is at most its decayed score over a
/// shorter one.
pub proof fn lemma_intent_decay_monotone(score: Score, g1: u64, g2: u64)
    requires
        score_ok(score),
        g1 <= g2,
    ensures
        spec_decayed_score(score, g2) <= spec_decayed_score(score, g1),
{
    lemma_decay_pow_monotone(score as nat, DECAY_RATE as nat, g1 as nat, g2 as nat);
}

/// Canceling an output twice is the same as canceling it once.
pub proof fn lemma_cancel_idempotent(outs: Seq<Output>, id: OutputId)
    ensures
        spec_cancel_by_id(spec_cancel_by_id(outs, id), id) == spec_cancel_by_id(outs, id),
{
    let once = spec_cancel_by_id(outs, id);
    let twice = spec_cancel_by_id(once, id);
    assert forall|i: int| 0 <= i < once.len() implies twice[i] == once[i] by {
        assert(once[i] == if outs[i].id == id {
            crate::state::spec_with_status(outs[i], crate::event::OutputStatus::Canceled)
        } else {
            outs[i]
        });
    }
    assert(twice =~= once);
}

} // verus!
