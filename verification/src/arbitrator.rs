//! Intent arbitration: a pure classifier from a transcribed utterance to an
//! updated intent state, and from an intent state to a dialogue act.
//!
//! The heuristics are order-sensitive and the first match wins: command
//! keywords, then question shapes, then thinking-aloud markers, then a plain
//! statement. A stable intent is never spoken about here — it is handed to
//! the planner.

use vstd::prelude::*;
use crate::intent::{
    DialogueAct, IntentCandidate, IntentHypothesis, IntentStability, IntentState, cand_eq,
    intent_state_ok,
};
use crate::score::Score;
use crate::text::{
    chars_of, contains_seq, fingerprint, lower_chars, spec_contains_seq, spec_fingerprint,
    spec_lower, spec_starts_with, starts_with,
};

verus! {

/// Confidence of a recognized command.
pub const COMMAND_CONFIDENCE: u32 = 9000;

/// Confidence of a clear inquiry.
pub const INQUIRY_CONFIDENCE: u32 = 8500;

/// Confidence of a hedged or very short inquiry.
pub const WEAK_INQUIRY_CONFIDENCE: u32 = 6000;

/// Confidence of thinking aloud.
pub const THINKING_CONFIDENCE: u32 = 7000;

/// Confidence of a plain statement.
pub const STATEMENT_CONFIDENCE: u32 = 5000;

/// Texts shorter than this never break a suspended intent.
pub const SUSPENDED_GUARD_LEN: usize = 5;

/// Inquiries shorter than this are treated as unstable.
pub const SHORT_INQUIRY_LEN: usize = 10;

/// Texts shorter than this count as fragments of thought.
pub const FRAGMENT_LEN: usize = 5;

/// Clarification requests exceed this confidence on an unstable candidate.
pub const CLARIFY_CONFIDENCE: u32 = 5000;

/// Whether the lowered text reads as a command.
pub open spec fn spec_is_command(t: Seq<char>) -> bool {
    spec_contains_seq(t, "turn on"@) || spec_contains_seq(t, "turn off"@) || spec_starts_with(
        t,
        "play"@,
    )
}

/// Whether the lowered text reads as an inquiry.
pub open spec fn spec_is_inquiry(t: Seq<char>) -> bool {
    spec_contains_seq(t, "what"@) || spec_contains_seq(t, "how"@) || spec_contains_seq(t, "?"@)
}

/// Whether an inquiry is too hedged or short to be stable.
pub open spec fn spec_inquiry_weak(t: Seq<char>) -> bool {
    spec_contains_seq(t, "maybe"@) || t.len() < SHORT_INQUIRY_LEN
}

/// Whether the lowered text reads as thinking aloud.
pub open spec fn spec_is_thinking(t: Seq<char>) -> bool {
    spec_contains_seq(t, "um"@) || spec_contains_seq(t, "uh"@) || t.len() < FRAGMENT_LEN
}

/// The classification of an utterance: its hypothesis, confidence and
/// stability, by the first matching heuristic.
pub open spec fn spec_classify(t: Seq<char>) -> (IntentHypothesis, Score, IntentStability) {
    if spec_is_command(t) {
        (IntentHypothesis::Command, COMMAND_CONFIDENCE, IntentStability::Stable)
    } else if spec_is_inquiry(t) {
        if spec_inquiry_weak(t) {
            (IntentHypothesis::Inquiry, WEAK_INQUIRY_CONFIDENCE, IntentStability::Unstable)
        } else {
            (IntentHypothesis::Inquiry, INQUIRY_CONFIDENCE, IntentStability::Stable)
        }
    } else if spec_is_thinking(t) {
        (IntentHypothesis::ThinkingAloud, THINKING_CONFIDENCE, IntentStability::Ambiguous)
    } else {
        (IntentHypothesis::Statement, STATEMENT_CONFIDENCE, IntentStability::Unstable)
    }
}

/// What the candidate built from an utterance holds: classification fields
/// from the lowered text, identity from the raw text's fingerprint, grounding
/// in exactly the symbol it came from.
pub open spec fn spec_candidate_for(text: Seq<char>, symbol_id: u64, c: IntentCandidate) -> bool {
    let (hyp, conf, stab) = spec_classify(spec_lower(text));
    &&& c.id == spec_fingerprint(text)
    &&& c.hypothesis == hyp
    &&& c.confidence == conf
    &&& c.stability == stab
    &&& c.source_symbol_ids@ == seq![symbol_id]
    &&& c.fingerprint == spec_fingerprint(text)
}

/// A fresh classification: the single resulting candidate lands in `Stable`
/// when its interpretation is settled and in `Forming` otherwise.
pub open spec fn spec_classified_result(text: Seq<char>, symbol_id: u64, r: IntentState) -> bool {
    let (hyp, conf, stab) = spec_classify(spec_lower(text));
    if stab is Stable {
        r matches IntentState::Stable(c) && spec_candidate_for(text, symbol_id, c)
    } else {
        r matches IntentState::Forming(cs) && cs@.len() == 1 && spec_candidate_for(
            text,
            symbol_id,
            cs@[0],
        )
    }
}

/// The arbitration result: a suspended state is kept against short noise;
/// otherwise the utterance is classified afresh.
pub open spec fn spec_assessed(
    text: Seq<char>,
    symbol_id: u64,
    current: IntentState,
    r: IntentState,
) -> bool {
    match current {
        IntentState::Suspended(existing) => if text.len() < SUSPENDED_GUARD_LEN {
            r matches IntentState::Suspended(kept) && cand_eq(kept, existing)
        } else {
            spec_classified_result(text, symbol_id, r)
        },
        _ => spec_classified_result(text, symbol_id, r),
    }
}

/// The candidate a dialogue decision goes by: the most confident one, the
/// later of equals.
pub open spec fn spec_best(cands: Seq<IntentCandidate>) -> IntentCandidate
    decreases cands.len(),
{
    if cands.len() <= 1 {
        cands[0]
    } else {
        let prev = spec_best(cands.drop_last());
        if cands.last().confidence >= prev.confidence {
            cands.last()
        } else {
            prev
        }
    }
}

/// The dialogue act for an intent state: stay silent unless a reasonably
/// confident but unstable candidate warrants one non-leading clarification;
/// a stable intent waits for the planner.
pub open spec fn spec_decided(s: IntentState, r: DialogueAct) -> bool {
    match s {
        IntentState::Idle => r is StaySilent,
        IntentState::Suspended(_) => r is StaySilent,
        IntentState::Stable(_) => r is Wait,
        IntentState::Forming(cands) => if cands@.len() == 0 {
            r is StaySilent
        } else {
            let best = spec_best(cands@);
            if best.hypothesis is ThinkingAloud || best.hypothesis is Fragment {
                r is StaySilent
            } else if best.confidence > CLARIFY_CONFIDENCE && best.stability is Unstable {
                r matches DialogueAct::AskClarification(m) && m@ == "Do you want me to respond?"@
            } else {
                r is StaySilent
            }
        },
    }
}

/// The pure classifier from transcribed text to intent state.
#[derive(Debug)]
pub struct IntentArbitrator;

impl IntentArbitrator {
    pub fn new() -> (r: Self)
        ensures
            true,
    {
        IntentArbitrator
    }

    /// Assess an utterance against the current intent state.
    pub fn assess(&self, text: &str, symbol_id: u64, current_state: &IntentState) -> (r:
        IntentState)
        requires
            intent_state_ok(*current_state),
        ensures
            spec_assessed(text@, symbol_id, *current_state, r),
            intent_state_ok(r),
    {
        if let IntentState::Suspended(existing) = current_state {
            if text.unicode_len() < SUSPENDED_GUARD_LEN {
                return IntentState::Suspended(existing.clone());
            }
        }
        let lower = lower_chars(text);
        let fp = fingerprint(text);
        let is_command = {
            let a = chars_of("turn on");
            let b = chars_of("turn off");
            let c = chars_of("play");
            contains_seq(&lower, &a) || contains_seq(&lower, &b) || starts_with(&lower, &c)
        };
        let (hypothesis, confidence, stability): (IntentHypothesis, Score, IntentStability) =
            if is_command {
            (IntentHypothesis::Command, COMMAND_CONFIDENCE, IntentStability::Stable)
        } else {
            let what = chars_of("what");
            let how = chars_of("how");
            let q = chars_of("?");
            if contains_seq(&lower, &what) || contains_seq(&lower, &how) || contains_seq(
                &lower,
                &q,
            ) {
                let maybe = chars_of("maybe");
                if contains_seq(&lower, &maybe) || lower.len() < SHORT_INQUIRY_LEN {
                    (IntentHypothesis::Inquiry, WEAK_INQUIRY_CONFIDENCE, IntentStability::Unstable)
                } else {
                    (IntentHypothesis::Inquiry, INQUIRY_CONFIDENCE, IntentStability::Stable)
                }
            } else {
                let um = chars_of("um");
                let uh = chars_of("uh");
                if contains_seq(&lower, &um) || contains_seq(&lower, &uh) || lower.len()
                    < FRAGMENT_LEN {
                    (
                        IntentHypothesis::ThinkingAloud,
                        THINKING_CONFIDENCE,
                        IntentStability::Ambiguous,
                    )
                } else {
                    (IntentHypothesis::Statement, STATEMENT_CONFIDENCE, IntentStability::Unstable)
                }
            }
        };
        let mut source_symbol_ids: Vec<u64> = Vec::new();
        source_symbol_ids.push(symbol_id);
        proof {
            assert(source_symbol_ids@ =~= seq![symbol_id]);
        }
        let candidate = IntentCandidate {
            id: fp,
            hypothesis,
            confidence,
            source_symbol_ids,
            stability,
            fingerprint: fp,
        };
        if matches!(candidate.stability, IntentStability::Stable) {
            IntentState::Stable(candidate)
        } else {
            let mut cands: Vec<IntentCandidate> = Vec::new();
            cands.push(candidate);
            IntentState::Forming(cands)
        }
    }

    /// Decide the dialogue act for an intent state.
    pub fn decide(&self, state: &IntentState) -> (r: DialogueAct)
        ensures
            spec_decided(*state, r),
    {
        match state {
            IntentState::Idle => DialogueAct::StaySilent,
            IntentState::Suspended(_) => DialogueAct::StaySilent,
            IntentState::Stable(_) => DialogueAct::Wait,
            IntentState::Forming(cands) => {
                let n: usize = cands.len();
                if n == 0 {
                    return DialogueAct::StaySilent;
                }
                let mut best: usize = 0;
                let mut i: usize = 1;
                while i < n
                    invariant
                        1 <= i <= n,
                        n == cands@.len(),
                        best < i,
                        cands@[best as int] == spec_best(cands@.subrange(0, i as int)),
                    decreases n - i,
                {
                    proof {
                        assert(cands@.subrange(0, i + 1).drop_last() =~= cands@.subrange(
                            0,
                            i as int,
                        ));
                        assert(cands@.subrange(0, i + 1).last() == cands@[i as int]);
                    }
                    if cands[i].confidence >= cands[best].confidence {
                        best = i;
                    }
                    i = i + 1;
                }
                proof {
                    assert(cands@.subrange(0, n as int) =~= cands@);
                }
                let b = &cands[best];
                match b.hypothesis {
                    IntentHypothesis::ThinkingAloud => DialogueAct::StaySilent,
                    IntentHypothesis::Fragment => DialogueAct::StaySilent,
                    _ => {
                        if b.confidence > CLARIFY_CONFIDENCE && matches!(
                            b.stability,
                            IntentStability::Unstable,
                        ) {
                            DialogueAct::AskClarification("Do you want me to respond?".to_owned())
                        } else {
                            DialogueAct::StaySilent
                        }
                    },
                }
            },
        }
    }
}

} // verus!
