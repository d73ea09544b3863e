//! Latent slots: short-lived sensor-derived context with decaying confidence.

use vstd::prelude::*;
use crate::score::{Score, UNIT, score_ok};
use crate::tick::Tick;

verus! {

/// The sensory channel a latent slot came from.
#[derive(Debug, Clone, Copy, PartialEq, Eq, Structural)]
pub enum Modality {
    Audio,
    Visual,
    Text,
}

/// One latent slot. Confidence decays multiplicatively each tick by
/// `decay_rate`; slots whose confidence falls to the pruning floor are removed.
#[derive(Debug)]
pub struct LatentSlot {
    /// Opaque feature values; the kernel never reads them, and the planner
    /// never sees them.
    pub values: Vec<Score>,
    pub confidence: Score,
    pub created_at: Tick,
    pub modality: Modality,
    /// The fraction of confidence lost per tick.
    pub decay_rate: Score,
}

/// Content equality for slots: every field agrees, the values compared
/// element for element.
pub open spec fn slot_eq(a: LatentSlot, b: LatentSlot) -> bool {
    &&& a.values@ == b.values@
    &&& a.confidence == b.confidence
    &&& a.created_at == b.created_at
    &&& a.modality == b.modality
    &&& a.decay_rate == b.decay_rate
}

impl Clone for LatentSlot {
    /// Clones preserve the slot's content.
    fn clone(&self) -> (r: Self)
        ensures
            slot_eq(r, *self),
    {
        let values = self.values.clone();
        proof {
            assert(values@ =~= self.values@);
        }
        LatentSlot {
            values,
            confidence: self.confidence,
            created_at: self.created_at,
            modality: self.modality,
            decay_rate: self.decay_rate,
        }
    }
}

pub open spec fn slot_ok(s: LatentSlot) -> bool {
    score_ok(s.confidence) && score_ok(s.decay_rate)
}

/// The set of live latent slots.
#[derive(Debug, Clone)]
pub struct LatentState {
    pub slots: Vec<LatentSlot>,
}

pub open spec fn latents_ok(l: LatentState) -> bool {
    forall|i: int| 0 <= i < l.slots@.len() ==> slot_ok(#[trigger] l.slots@[i])
}

/// The sum of the slots' confidences.
pub open spec fn spec_confidence_sum(slots: Seq<LatentSlot>) -> int
    decreases slots.len(),
{
    if slots.len() == 0 {
        0
    } else {
        spec_confidence_sum(slots.drop_last()) + slots.last().confidence
    }
}

/// Global uncertainty: one minus the mean slot confidence (rounded down), and
/// zero when there are no slots.
pub open spec fn spec_global_uncertainty(l: LatentState) -> int {
    if l.slots@.len() == 0 {
        0
    } else {
        UNIT - spec_confidence_sum(l.slots@) / (l.slots@.len() as int)
    }
}

proof fn lemma_confidence_sum_bounds(slots: Seq<LatentSlot>)
    requires
        forall|i: int| 0 <= i < slots.len() ==> score_ok(#[trigger] slots[i].confidence),
    ensures
        0 <= spec_confidence_sum(slots) <= slots.len() * UNIT,
    decreases slots.len(),
{
    if slots.len() > 0 {
        lemma_confidence_sum_bounds(slots.drop_last());
        assert((slots.len() - 1) * UNIT + UNIT == slots.len() * UNIT) by (nonlinear_arith);
    }
}

impl Default for LatentState {
    fn default() -> (l: Self)
        ensures
            l.slots@.len() == 0,
    {
        LatentState { slots: Vec::new() }
    }
}

impl LatentState {
    pub fn new() -> (l: Self)
        ensures
            l.slots@.len() == 0,
    {
        LatentState { slots: Vec::new() }
    }

    /// How uncertain the kernel is overall: the complement of the mean slot
    /// confidence. An empty slate is treated as quiescent, not confused.
    pub fn global_uncertainty(&self) -> (u: Score)
        requires
            latents_ok(*self),
        ensures
            u == spec_global_uncertainty(*self),
            score_ok(u),
    {
        let n: usize = self.slots.len();
        if n == 0 {
            return 0;
        }
        let mut sum: u128 = 0;
        let mut i: usize = 0;
        while i < n
            invariant
                i <= n,
                n == self.slots@.len(),
                latents_ok(*self),
                sum == spec_confidence_sum(self.slots@.subrange(0, i as int)),
                sum <= i * UNIT,
            decreases n - i,
        {
            proof {
                assert(self.slots@.subrange(0, i + 1).drop_last() =~= self.slots@.subrange(
                    0,
                    i as int,
                ));
                assert(i * UNIT + UNIT == (i + 1) * UNIT) by (nonlinear_arith);
            }
            sum = sum + self.slots[i].confidence as u128;
            i = i + 1;
        }
        proof {
            assert(self.slots@.subrange(0, n as int) =~= self.slots@);
            lemma_confidence_sum_bounds(self.slots@);
            assert(sum / (n as u128) <= UNIT) by (nonlinear_arith)
                requires sum <= n * UNIT, n > 0,
            ;
        }
        let mean: u128 = sum / (n as u128);
        UNIT - (mean as u32)
    }
}

} // verus!
