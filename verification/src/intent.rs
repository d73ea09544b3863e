//! Intent data: candidates produced by arbitration and the kernel's current
//! assessment of what the user wants.

use vstd::prelude::*;
use crate::score::{Score, score_ok};

verus! {

/// How settled a candidate's interpretation is.
#[derive(Debug, Clone, Copy, PartialEq, Eq, Structural)]
pub enum IntentStability {
    Stable,
    Unstable,
    Ambiguous,
}

/// What kind of utterance a candidate takes the text to be.
#[derive(Debug, Clone, Copy, PartialEq, Eq, Hash, Structural)]
pub enum IntentHypothesis {
    /// The user is asking something.
    Inquiry,
    /// The user is stating something.
    Statement,
    /// The user is instructing an action.
    Command,
    /// An incomplete thought.
    Fragment,
    /// Self-talk.
    ThinkingAloud,
}

/// One hypothesis about a transcribed utterance.
///
/// The identifier and the semantic fingerprint are both derived purely from
/// the hypothesis and the utterance's content, so the same utterance yields
/// the same candidate identity in every run.
#[derive(Debug)]
pub struct IntentCandidate {
    pub id: u64,
    pub hypothesis: IntentHypothesis,
    pub confidence: Score,
    /// The segments this candidate is grounded in.
    pub source_symbol_ids: Vec<u64>,
    pub stability: IntentStability,
    /// Content-derived fingerprint; equal utterances of the same hypothesis
    /// collide, different topics do not.
    pub fingerprint: u64,
}

/// Content equality for candidates: every field agrees, the symbol list
/// compared element for element.
pub open spec fn cand_eq(a: IntentCandidate, b: IntentCandidate) -> bool {
    &&& a.id == b.id
    &&& a.hypothesis == b.hypothesis
    &&& a.confidence == b.confidence
    &&& a.source_symbol_ids@ == b.source_symbol_ids@
    &&& a.stability == b.stability
    &&& a.fingerprint == b.fingerprint
}

impl Clone for IntentCandidate {
    /// Clones preserve the candidate's content.
    fn clone(&self) -> (r: Self)
        ensures
            cand_eq(r, *self),
    {
        let source_symbol_ids = self.source_symbol_ids.clone();
        proof {
            assert(source_symbol_ids@ =~= self.source_symbol_ids@);
        }
        IntentCandidate {
            id: self.id,
            hypothesis: self.hypothesis,
            confidence: self.confidence,
            source_symbol_ids,
            stability: self.stability,
            fingerprint: self.fingerprint,
        }
    }
}

/// A candidate is valid when its confidence is a valid score.
pub open spec fn candidate_ok(c: IntentCandidate) -> bool {
    score_ok(c.confidence)
}

/// The kernel's current assessment of user intent.
#[derive(Debug)]
pub enum IntentState {
    /// No intent assessed.
    Idle,
    /// Competing candidates, none settled.
    Forming(Vec<IntentCandidate>),
    /// Settled and ready for handoff to the planner; never executed here.
    Stable(IntentCandidate),
    /// Interrupted but preserved; no output until reinforced.
    Suspended(IntentCandidate),
}

/// Content equality for intent states: same variant, candidates equal in
/// content.
pub open spec fn intent_state_eq(a: IntentState, b: IntentState) -> bool {
    match (a, b) {
        (IntentState::Idle, IntentState::Idle) => true,
        (IntentState::Forming(xs), IntentState::Forming(ys)) => xs@.len() == ys@.len()
            && forall|i: int| 0 <= i < xs@.len() ==> cand_eq(#[trigger] xs@[i], ys@[i]),
        (IntentState::Stable(x), IntentState::Stable(y)) => cand_eq(x, y),
        (IntentState::Suspended(x), IntentState::Suspended(y)) => cand_eq(x, y),
        _ => false,
    }
}

impl Clone for IntentState {
    /// Clones preserve the state's content.
    fn clone(&self) -> (r: Self)
        ensures
            intent_state_eq(r, *self),
    {
        match self {
            IntentState::Idle => IntentState::Idle,
            IntentState::Forming(cs) => {
                let mut copy: Vec<IntentCandidate> = Vec::new();
                let n: usize = cs.len();
                let mut i: usize = 0;
                while i < n
                    invariant
                        i <= n,
                        n == cs@.len(),
                        copy@.len() == i,
                        forall|j: int| 0 <= j < i ==> cand_eq(#[trigger] copy@[j], cs@[j]),
                    decreases n - i,
                {
                    copy.push(cs[i].clone());
                    i = i + 1;
                }
                IntentState::Forming(copy)
            },
            IntentState::Stable(c) => IntentState::Stable(c.clone()),
            IntentState::Suspended(c) => IntentState::Suspended(c.clone()),
        }
    }
}

impl Default for IntentState {
    fn default() -> (s: Self)
        ensures
            s matches IntentState::Idle,
    {
        IntentState::Idle
    }
}

/// Every candidate held by an intent state is valid.
pub open spec fn intent_state_ok(s: IntentState) -> bool {
    match s {
        IntentState::Idle => true,
        IntentState::Forming(cs) => forall|i: int| 0 <= i < cs@.len() ==> candidate_ok(#[trigger] cs@[i]),
        IntentState::Stable(c) => candidate_ok(c),
        IntentState::Suspended(c) => candidate_ok(c),
    }
}

/// What the kernel chooses to do about the current intent state.
#[derive(Debug, Clone)]
pub enum DialogueAct {
    /// Request clarification with a non-leading prompt.
    AskClarification(String),
    /// Confirm understanding before acting.
    Confirm(String),
    /// Offer an action path.
    Offer(String),
    /// An intent is stable and handed off to the planner; say nothing.
    Wait,
    /// No sufficient intent to speak.
    StaySilent,
}

} // verus!
