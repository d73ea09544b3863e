//! Memory data: content-addressed candidates, long-term records, and consent.

use vstd::prelude::*;
use crate::intent::{IntentCandidate, IntentHypothesis, candidate_ok};
use crate::score::{Score, score_ok};
use crate::tick::Tick;

verus! {

/// Identifier of a memory candidate or record, derived deterministically
/// from its key.
pub type MemoryId = u64;

/// Content-addressed key for semantic matching. Two inquiries about different
/// topics get different fingerprints and never reinforce each other.
#[derive(Debug, Clone, Copy, PartialEq, Eq, Hash, Structural)]
pub struct MemoryKey {
    pub hypothesis: IntentHypothesis,
    pub symbol_fingerprint: u64,
}

/// A small constant that separates the identifier spaces of the five
/// hypothesis kinds.
pub open spec fn spec_hypothesis_tag(h: IntentHypothesis) -> u64 {
    match h {
        IntentHypothesis::Inquiry => 1,
        IntentHypothesis::Statement => 2,
        IntentHypothesis::Command => 3,
        IntentHypothesis::Fragment => 4,
        IntentHypothesis::ThinkingAloud => 5,
    }
}

/// The identifier a key maps to: the fingerprint folded with the hypothesis
/// tag. Deterministic, so the record promoted from a candidate keeps its id.
pub open spec fn spec_key_id(key: MemoryKey) -> u64 {
    key.symbol_fingerprint ^ (spec_hypothesis_tag(key.hypothesis) << 56)
}

impl MemoryKey {
    /// The key of a candidate: its hypothesis plus its content fingerprint.
    pub fn from_intent(intent: &IntentCandidate) -> (k: MemoryKey)
        ensures
            k.hypothesis == intent.hypothesis,
            k.symbol_fingerprint == intent.fingerprint,
    {
        MemoryKey { hypothesis: intent.hypothesis, symbol_fingerprint: intent.fingerprint }
    }

    /// The deterministic identifier of this key.
    pub fn id(&self) -> (r: MemoryId)
        ensures
            r == spec_key_id(*self),
    {
        let tag: u64 = match self.hypothesis {
            IntentHypothesis::Inquiry => 1,
            IntentHypothesis::Statement => 2,
            IntentHypothesis::Command => 3,
            IntentHypothesis::Fragment => 4,
            IntentHypothesis::ThinkingAloud => 5,
        };
        self.symbol_fingerprint ^ (tag << 56u64)
    }
}

/// A possible memory, not yet durable; it must recur before it is promoted.
#[derive(Debug)]
pub struct MemoryCandidate {
    pub id: MemoryId,
    pub key: MemoryKey,
    pub intent: IntentCandidate,
    pub created_at: Tick,
    /// How often this key has been seen, the first appearance included.
    pub reinforcement_count: u32,
    pub last_reinforced_at: Tick,
}

/// Content equality for candidates: every field agrees, the intent compared
/// in content.
pub open spec fn mem_candidate_eq(a: MemoryCandidate, b: MemoryCandidate) -> bool {
    &&& a.id == b.id
    &&& a.key == b.key
    &&& crate::intent::cand_eq(a.intent, b.intent)
    &&& a.created_at == b.created_at
    &&& a.reinforcement_count == b.reinforcement_count
    &&& a.last_reinforced_at == b.last_reinforced_at
}

impl Clone for MemoryCandidate {
    /// Clones preserve the candidate's content.
    fn clone(&self) -> (r: Self)
        ensures
            mem_candidate_eq(r, *self),
    {
        MemoryCandidate {
            id: self.id,
            key: self.key,
            intent: self.intent.clone(),
            created_at: self.created_at,
            reinforcement_count: self.reinforcement_count,
            last_reinforced_at: self.last_reinforced_at,
        }
    }
}

pub open spec fn memory_candidate_ok(c: MemoryCandidate) -> bool {
    candidate_ok(c.intent)
}

/// A durable long-term record. Strength decays and the record is forgotten
/// once it falls below the forgetting threshold.
#[derive(Debug)]
pub struct MemoryRecord {
    pub id: MemoryId,
    pub intent: IntentCandidate,
    pub first_committed_at: Tick,
    pub last_accessed_at: Tick,
    pub strength: Score,
}

/// Content equality for records: every field agrees, the intent compared in
/// content.
pub open spec fn mem_record_eq(a: MemoryRecord, b: MemoryRecord) -> bool {
    &&& a.id == b.id
    &&& crate::intent::cand_eq(a.intent, b.intent)
    &&& a.first_committed_at == b.first_committed_at
    &&& a.last_accessed_at == b.last_accessed_at
    &&& a.strength == b.strength
}

impl Clone for MemoryRecord {
    /// Clones preserve the record's content.
    fn clone(&self) -> (r: Self)
        ensures
            mem_record_eq(r, *self),
    {
        MemoryRecord {
            id: self.id,
            intent: self.intent.clone(),
            first_committed_at: self.first_committed_at,
            last_accessed_at: self.last_accessed_at,
            strength: self.strength,
        }
    }
}

pub open spec fn memory_record_ok(r: MemoryRecord) -> bool {
    score_ok(r.strength) && candidate_ok(r.intent)
}

/// Where consent for remembering a key stands.
#[derive(Debug, Clone, Copy, PartialEq, Eq, Structural)]
pub enum MemoryConsentState {
    Unknown,
    Granted,
    Declined,
    /// The prompt went unanswered; treated like Declined for promotion.
    Ignored,
}

/// The consent state attached to one memory key.
#[derive(Debug, Clone, Copy)]
pub struct MemoryConsent {
    pub memory_key: MemoryKey,
    pub state: MemoryConsentState,
    pub asked_at: Tick,
    pub resolved_at: Option<Tick>,
}

impl MemoryConsent {
    /// A fresh, unresolved consent entry.
    pub fn new(key: MemoryKey, asked_at: Tick) -> (c: MemoryConsent)
        ensures
            c.memory_key == key,
            c.state == MemoryConsentState::Unknown,
            c.asked_at == asked_at,
            c.resolved_at is None,
    {
        MemoryConsent {
            memory_key: key,
            state: MemoryConsentState::Unknown,
            asked_at,
            resolved_at: None,
        }
    }
}

} // verus!
