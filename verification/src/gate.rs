//! The crystallization gate: a pure predicate over state that decides
//! whether abstract intent may become audible output. Silence is the default:
//! it denies while the user speaks, and tightens as uncertainty or the
//! self-observed confidence penalty rise.

use vstd::prelude::*;
use crate::latent::{Modality, spec_global_uncertainty};
use crate::score::{Score, score_ok};
use crate::state::{SharedState, state_ok};
use crate::tick::Tick;

verus! {

/// Uncertainty above the effective deny threshold refuses output outright.
pub const DENY_THRESHOLD: u32 = 8000;

/// Uncertainty above this asks for a delay instead.
pub const DELAY_THRESHOLD: u32 = 6000;

/// Uncertainty above this hedges the output.
pub const PARTIAL_THRESHOLD: u32 = 4000;

/// How strongly the confidence penalty tightens the deny threshold.
pub const PENALTY_WEIGHT: u32 = 3000;

/// How long a Delay postpones crystallization, in milliseconds.
pub const DELAY_MS: u64 = 500;

/// The verdict on crystallizing output.
#[derive(Debug, Clone, Copy, PartialEq, Eq, Structural)]
pub enum CrystallizationDecision {
    Deny,
    Delay { ms: u64 },
    /// Output is allowed, hedged.
    AllowPartial,
    /// Output is allowed, direct.
    AllowHard,
}

/// One claim extracted from state for realization.
#[derive(Debug, Clone)]
pub struct Claim {
    pub content: String,
    pub confidence: Score,
    pub modality_support: Vec<String>,
}

/// A deterministic extract of what the state currently supports saying.
#[derive(Debug, Clone)]
pub struct SymbolicSnapshot {
    pub claims: Vec<Claim>,
    pub base_uncertainty: Score,
    pub timestamp: Tick,
}

/// The deny threshold after the confidence penalty tightened it:
/// `DENY_THRESHOLD` minus `PENALTY_WEIGHT` scaled by the penalty.
pub open spec fn spec_effective_deny(penalty: Score) -> int {
    DENY_THRESHOLD - (penalty * PENALTY_WEIGHT) / (crate::score::UNIT as int)
}

/// The whole decision, as a function of state: deny while the user speaks; then judge
/// global uncertainty against the tightened deny threshold, the delay
/// threshold and the hedging threshold, in that order.
pub open spec fn spec_gate(s: SharedState) -> CrystallizationDecision {
    if s.user_speaking {
        CrystallizationDecision::Deny
    } else {
        let u = spec_global_uncertainty(s.latents);
        if u > spec_effective_deny(s.meta_latents.confidence_penalty) {
            CrystallizationDecision::Deny
        } else if u > DELAY_THRESHOLD {
            CrystallizationDecision::Delay { ms: DELAY_MS }
        } else if u > PARTIAL_THRESHOLD {
            CrystallizationDecision::AllowPartial
        } else {
            CrystallizationDecision::AllowHard
        }
    }
}

/// Pure decision: whether the system may crystallize thought into output.
pub fn check_gate(state: &SharedState) -> (r: CrystallizationDecision)
    requires
        state_ok(*state),
    ensures
        r == spec_gate(*state),
{
    if state.user_speaking {
        return CrystallizationDecision::Deny;
    }
    let uncertainty = state.latents.global_uncertainty();
    let effective_deny = DENY_THRESHOLD - (state.meta_latents.confidence_penalty * PENALTY_WEIGHT)
        / crate::score::UNIT;
    if uncertainty > effective_deny {
        return CrystallizationDecision::Deny;
    }
    if uncertainty > DELAY_THRESHOLD {
        return CrystallizationDecision::Delay { ms: DELAY_MS };
    }
    if uncertainty > PARTIAL_THRESHOLD {
        return CrystallizationDecision::AllowPartial;
    }
    CrystallizationDecision::AllowHard
}

/// Confidence above which a latent slot yields a claim.
pub const CLAIM_FLOOR: u32 = 8000;

/// The claim text each modality supports.
pub open spec fn spec_claim_text(m: Modality) -> Seq<char> {
    match m {
        Modality::Visual => "Visual context is stable."@,
        Modality::Audio => "High energy audio detected."@,
        Modality::Text => "Thought processed."@,
    }
}

/// The name of the channel backing a claim.
pub open spec fn spec_support_name(m: Modality) -> Seq<char> {
    match m {
        Modality::Visual => "Vision"@,
        Modality::Audio => "Audio"@,
        Modality::Text => "Text"@,
    }
}

/// The slots strong enough to claim something, in order.
pub open spec fn spec_claim_slots_of(slots: Seq<crate::latent::LatentSlot>) -> Seq<
    crate::latent::LatentSlot,
>
    decreases slots.len(),
{
    if slots.len() == 0 {
        Seq::empty()
    } else {
        let rest = spec_claim_slots_of(slots.drop_last());
        if slots.last().confidence > CLAIM_FLOOR {
            rest.push(slots.last())
        } else {
            rest
        }
    }
}

/// The slots strong enough to claim something.
pub open spec fn spec_claim_slots(s: SharedState) -> Seq<crate::latent::LatentSlot> {
    spec_claim_slots_of(s.latents.slots@)
}

/// Deterministic extraction of claims from state: one claim per latent slot
/// whose confidence clears the floor, in slot order, each carrying its
/// modality's fixed text, the slot's confidence, and its channel name.
pub fn extract_snapshot(state: &SharedState) -> (r: SymbolicSnapshot)
    requires
        state_ok(*state),
    ensures
        r.claims@.len() == spec_claim_slots(*state).len(),
        forall|i: int|
            0 <= i < r.claims@.len() ==> {
                let sl = spec_claim_slots(*state)[i];
                &&& (#[trigger] r.claims@[i]).content@ == spec_claim_text(sl.modality)
                &&& r.claims@[i].confidence == sl.confidence
                &&& r.claims@[i].modality_support@.len() == 1
                &&& r.claims@[i].modality_support@[0]@ == spec_support_name(sl.modality)
            },
        r.base_uncertainty == spec_global_uncertainty(state.latents),
        r.timestamp == state.last_tick,
{
    let mut claims: Vec<Claim> = Vec::new();
    let n: usize = state.latents.slots.len();
    let mut i: usize = 0;
    while i < n
        invariant
            i <= n,
            n == state.latents.slots@.len(),
            state_ok(*state),
            claims@.len() == spec_claim_slots_of(state.latents.slots@.subrange(0, i as int)).len(),
            forall|j: int|
                0 <= j < claims@.len() ==> {
                    let sl = spec_claim_slots_of(state.latents.slots@.subrange(0, i as int))[j];
                    &&& (#[trigger] claims@[j]).content@ == spec_claim_text(sl.modality)
                    &&& claims@[j].confidence == sl.confidence
                    &&& claims@[j].modality_support@.len() == 1
                    &&& claims@[j].modality_support@[0]@ == spec_support_name(sl.modality)
                },
        decreases n - i,
    {
        let ghost pref = state.latents.slots@.subrange(0, i + 1);
        proof {
            assert(pref.drop_last() =~= state.latents.slots@.subrange(0, i as int));
            assert(pref.last() == state.latents.slots@[i as int]);
        }
        let sl = &state.latents.slots[i];
        if sl.confidence > CLAIM_FLOOR {
            let (text, support): (&str, &str) = match sl.modality {
                Modality::Visual => ("Visual context is stable.", "Vision"),
                Modality::Audio => ("High energy audio detected.", "Audio"),
                Modality::Text => ("Thought processed.", "Text"),
            };
            let mut modality_support: Vec<String> = Vec::new();
            modality_support.push(support.to_owned());
            claims.push(
                Claim { content: text.to_owned(), confidence: sl.confidence, modality_support },
            );
        }
        i = i + 1;
    }
    proof {
        assert(state.latents.slots@.subrange(0, n as int) =~= state.latents.slots@);
    }
    let base_uncertainty = state.latents.global_uncertainty();
    SymbolicSnapshot { claims, base_uncertainty, timestamp: state.last_tick }
}

} // verus!
