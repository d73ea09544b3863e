//! The memory consolidator: reinforcement counting, temporal gating,
//! consent-aware promotion, post-promotion decay and pruning.
//!
//! Nothing becomes durable on one sighting: a candidate must recur across
//! the consolidation window, and must have consent — explicit, or the narrow
//! implicit path for very confident statements, which asks instead of
//! promoting.

use vstd::prelude::*;
use crate::intent::{IntentCandidate, IntentHypothesis, IntentStability};
use crate::memory::{
    MemoryCandidate, MemoryConsent, MemoryConsentState, MemoryKey, MemoryRecord, spec_key_id,
};
use crate::score::{Score, spec_decay_step};
use crate::state::{SharedState, StateDelta, state_ok};
use crate::telemetry::{MemoryEventKind, TelemetryEvent, TelemetryRecorder, recorder_ok};
use crate::tick::Tick;

verus! {

/// A candidate must be at least this old before it can be promoted.
pub const MIN_CONSOLIDATION_WINDOW: u64 = 1200;

/// A candidate idle this long without reinforcement is pruned.
pub const MAX_CANDIDATE_AGE: u64 = 12000;

/// Per-tick decay of a record's strength once out of grace.
pub const DECAY_FACTOR: u32 = 9995;

/// Records below this strength are forgotten.
pub const FORGET_THRESHOLD: u32 = 1000;

/// Recent access postpones decay for this many ticks.
pub const GRACE_TICKS: u64 = 200;

/// Only stable intents at or above this confidence are ingested.
pub const INGEST_CONFIDENCE: u32 = 8500;

/// Sightings needed before promotion.
pub const REINFORCEMENT_REQUIRED: u32 = 2;

/// The implicit-consent path needs at least this confidence.
pub const UNKNOWN_CONSENT_CONFIDENCE: u32 = 9500;

/// A promoted record starts at this strength.
pub const INITIAL_STRENGTH: u32 = 5000;

/// Whether an intent qualifies for ingestion: stable and confident enough.
pub open spec fn spec_ingestible(c: IntentCandidate) -> bool {
    c.stability == IntentStability::Stable && c.confidence >= INGEST_CONFIDENCE
}

/// The index of the first candidate with this key, or nothing.
pub open spec fn spec_candidate_with_key(cs: Seq<MemoryCandidate>, key: MemoryKey) -> bool {
    exists|i: int| 0 <= i < cs.len() && cs[i].key == key
}

/// The consent state recorded for a key: that of the first entry, or
/// `Unknown` when none exists.
pub open spec fn spec_consent_lookup(cs: Seq<MemoryConsent>, key: MemoryKey) -> MemoryConsentState
    decreases cs.len(),
{
    if cs.len() == 0 {
        MemoryConsentState::Unknown
    } else if cs.first().memory_key == key {
        cs.first().state
    } else {
        spec_consent_lookup(cs.drop_first(), key)
    }
}

/// Elapsed ticks from `a` to `now`, zero when the clock is behind.
pub open spec fn spec_elapsed(a: Tick, now: Tick) -> u64 {
    if now.frame >= a.frame {
        (now.frame - a.frame) as u64
    } else {
        0
    }
}

/// A candidate cleared for promotion: reinforced enough, old enough, and
/// consent granted.
pub open spec fn spec_promotable(c: MemoryCandidate, now: Tick, consents: Seq<MemoryConsent>) -> bool {
    &&& c.reinforcement_count >= REINFORCEMENT_REQUIRED
    &&& spec_elapsed(c.created_at, now) >= MIN_CONSOLIDATION_WINDOW
    &&& spec_consent_lookup(consents, c.key) == MemoryConsentState::Granted
}

/// A candidate on the implicit path: reinforced and old enough, consent
/// unknown, and a very confident statement — it asks for consent instead of
/// promoting.
pub open spec fn spec_consent_askable(
    c: MemoryCandidate,
    now: Tick,
    consents: Seq<MemoryConsent>,
) -> bool {
    &&& c.reinforcement_count >= REINFORCEMENT_REQUIRED
    &&& spec_elapsed(c.created_at, now) >= MIN_CONSOLIDATION_WINDOW
    &&& spec_consent_lookup(consents, c.key) == MemoryConsentState::Unknown
    &&& c.intent.hypothesis == IntentHypothesis::Statement
    &&& c.intent.confidence >= UNKNOWN_CONSENT_CONFIDENCE
}

/// A candidate idle too long without reinforcement.
pub open spec fn spec_prunable(c: MemoryCandidate, now: Tick) -> bool {
    spec_elapsed(c.last_reinforced_at, now) > MAX_CANDIDATE_AGE
}

/// A record outside its access grace window: decay applies.
pub open spec fn spec_out_of_grace(r: MemoryRecord, now: Tick) -> bool {
    spec_elapsed(r.last_accessed_at, now) > GRACE_TICKS
}

/// A record's strength after one decay step.
pub open spec fn spec_decayed_strength(r: MemoryRecord) -> nat {
    spec_decay_step(r.strength as nat, DECAY_FACTOR as nat)
}

/// What a record promoted from a candidate holds.
pub open spec fn spec_promoted_record(c: MemoryCandidate, now: Tick, r: MemoryRecord) -> bool {
    &&& r.id == c.id
    &&& crate::intent::cand_eq(r.intent, c.intent)
    &&& r.first_committed_at == now
    &&& r.last_accessed_at == now
    &&& r.strength == INITIAL_STRENGTH
}

/// Whether this delta is justified by the per-tick rules against the given
/// state: every emitted delta must be one of these.
pub open spec fn spec_tick_delta_justified(d: StateDelta, state: SharedState, now: Tick) -> bool {
    match d {
        StateDelta::MemoryDecayed { id, new_strength } => exists|i: int|
            0 <= i < state.long_term_memory@.len() && {
                let r = #[trigger] state.long_term_memory@[i];
                r.id == id && spec_out_of_grace(r, now) && new_strength as nat
                    == spec_decayed_strength(r) && new_strength >= FORGET_THRESHOLD
            },
        StateDelta::MemoryForgotten(id) => exists|i: int|
            0 <= i < state.long_term_memory@.len() && {
                let r = #[trigger] state.long_term_memory@[i];
                r.id == id && spec_out_of_grace(r, now) && spec_decayed_strength(r)
                    < FORGET_THRESHOLD
            },
        StateDelta::MemoryPromoted(rec) => exists|i: int|
            0 <= i < state.memory_candidates@.len() && {
                let c = #[trigger] state.memory_candidates@[i];
                spec_promotable(c, now, state.memory_consent@) && spec_promoted_record(c, now, rec)
            },
        StateDelta::MemoryCandidateRemoved(id) => exists|i: int|
            0 <= i < state.memory_candidates@.len() && {
                let c = #[trigger] state.memory_candidates@[i];
                c.id == id && (spec_promotable(c, now, state.memory_consent@) || spec_prunable(
                    c,
                    now,
                ))
            },
        StateDelta::MemoryConsentAsked(key, t) => t == now && exists|i: int|
            0 <= i < state.memory_candidates@.len() && {
                let c = #[trigger] state.memory_candidates@[i];
                c.key == key && spec_consent_askable(c, now, state.memory_consent@)
            },
        _ => false,
    }
}

/// Decides what becomes durable. Pure: it reads state and proposes deltas.
#[derive(Debug)]
pub struct MemoryConsolidator;

impl MemoryConsolidator {
    pub fn new() -> (r: Self)
        ensures
            true,
    {
        MemoryConsolidator
    }

    /// Ingest a stable, confident intent: reinforce the first candidate with
    /// its key, or open a new candidate. Anything weaker leaves no trace.
    pub fn process_intent(
        &self,
        intent: &IntentCandidate,
        state: &SharedState,
        telemetry: &mut TelemetryRecorder,
    ) -> (r: Vec<StateDelta>)
        requires
            state_ok(*state),
            recorder_ok(*old(telemetry)),
        ensures
            recorder_ok(*final(telemetry)),
            !spec_ingestible(*intent) ==> r@.len() == 0,
            spec_ingestible(*intent) ==> {
                let key = MemoryKey { hypothesis: intent.hypothesis, symbol_fingerprint: intent.fingerprint };
                &&& r@.len() == 1
                &&& if spec_candidate_with_key(state.memory_candidates@, key) {
                    exists|i: int|
                        0 <= i < state.memory_candidates@.len() && (
                        #[trigger] state.memory_candidates@[i]).key == key && r@[0]
                            == StateDelta::MemoryCandidateReinforced(
                            state.memory_candidates@[i].id,
                            state.last_tick,
                        )
                } else {
                    r@[0] matches StateDelta::MemoryCandidateCreated(c) && c.id == spec_key_id(key)
                        && c.key == key && crate::intent::cand_eq(c.intent, *intent)
                        && c.created_at == state.last_tick && c.reinforcement_count == 1
                        && c.last_reinforced_at == state.last_tick
                }
            },
    {
        if !matches!(intent.stability, IntentStability::Stable) || intent.confidence
            < INGEST_CONFIDENCE {
            return Vec::new();
        }
        let key = MemoryKey::from_intent(intent);
        let mut r: Vec<StateDelta> = Vec::new();
        let n: usize = state.memory_candidates.len();
        let mut i: usize = 0;
        while i < n
            invariant
                i <= n,
                n == state.memory_candidates@.len(),
                recorder_ok(*telemetry),
                r@.len() == 0,
                spec_ingestible(*intent),
                key == (MemoryKey {
                    hypothesis: intent.hypothesis,
                    symbol_fingerprint: intent.fingerprint,
                }),
                forall|j: int| 0 <= j < i ==> (#[trigger] state.memory_candidates@[j]).key != key,
            decreases n - i,
        {
            if state.memory_candidates[i].key == key {
                let id = state.memory_candidates[i].id;
                telemetry.record(
                    TelemetryEvent::MemoryEvent { kind: MemoryEventKind::Reinforced, memory_id: id },
                );
                r.push(StateDelta::MemoryCandidateReinforced(id, state.last_tick));
                return r;
            }
            i = i + 1;
        }
        let id = key.id();
        telemetry.record(
            TelemetryEvent::MemoryEvent { kind: MemoryEventKind::CandidateCreated, memory_id: id },
        );
        r.push(
            StateDelta::MemoryCandidateCreated(
                MemoryCandidate {
                    id,
                    key,
                    intent: intent.clone(),
                    created_at: state.last_tick,
                    reinforcement_count: 1,
                    last_reinforced_at: state.last_tick,
                },
            ),
        );
        r
    }

    /// Periodic maintenance. Every record out of grace decays, and is
    /// forgotten once it would fall under the forgetting threshold. Every
    /// promotable candidate yields a record and is removed; the implicit
    /// path asks for consent instead; idle candidates are pruned. Nothing
    /// else is ever emitted.
    pub fn tick(
        &self,
        current_tick: Tick,
        state: &SharedState,
        telemetry: &mut TelemetryRecorder,
    ) -> (r: Vec<StateDelta>)
        requires
            state_ok(*state),
            recorder_ok(*old(telemetry)),
        ensures
            recorder_ok(*final(telemetry)),
            forall|i: int|
                0 <= i < r@.len() ==> spec_tick_delta_justified(
                    #[trigger] r@[i],
                    *state,
                    current_tick,
                ),
            old(telemetry).buffer@.len() + state.long_term_memory@.len()
                + state.memory_candidates@.len() <= crate::telemetry::MAX_EVENTS ==> forall|
                i: int,
            |
                0 <= i < state.long_term_memory@.len() ==> {
                    let rec = #[trigger] state.long_term_memory@[i];
                    (spec_out_of_grace(rec, current_tick) && spec_decayed_strength(rec)
                        < FORGET_THRESHOLD) ==> exists|k: int|
                        0 <= k < final(telemetry).buffer@.len() && final(telemetry).buffer@[k]
                            == (TelemetryEvent::MemoryEvent {
                            kind: MemoryEventKind::Forgotten,
                            memory_id: rec.id,
                        })
                },
            old(telemetry).buffer@.len() + state.long_term_memory@.len()
                + state.memory_candidates@.len() <= crate::telemetry::MAX_EVENTS ==> forall|
                i: int,
            |
                0 <= i < state.memory_candidates@.len() ==> {
                    let c = #[trigger] state.memory_candidates@[i];
                    spec_promotable(c, current_tick, state.memory_consent@) ==> exists|k: int|
                        0 <= k < final(telemetry).buffer@.len() && final(telemetry).buffer@[k]
                            == (TelemetryEvent::MemoryEvent {
                            kind: MemoryEventKind::Promoted,
                            memory_id: c.id,
                        })
                },
            forall|i: int|
                0 <= i < state.long_term_memory@.len() ==> {
                    let rec = #[trigger] state.long_term_memory@[i];
                    spec_out_of_grace(rec, current_tick) ==> (if spec_decayed_strength(rec)
                        < FORGET_THRESHOLD {
                        exists|j: int|
                            0 <= j < r@.len() && (#[trigger] r@[j]) == StateDelta::MemoryForgotten(
                                rec.id,
                            )
                    } else {
                        exists|j: int|
                            0 <= j < r@.len() && (#[trigger] r@[j])
                                == StateDelta::MemoryDecayed {
                                id: rec.id,
                                new_strength: spec_decayed_strength(rec) as u32,
                            }
                    })
                },
            forall|i: int|
                0 <= i < state.memory_candidates@.len() ==> {
                    let c = #[trigger] state.memory_candidates@[i];
                    &&& (spec_promotable(c, current_tick, state.memory_consent@) ==> exists|j: int|
                        0 <= j < r@.len() && ((#[trigger] r@[j]) matches StateDelta::MemoryPromoted(
                            rec,
                        ) && spec_promoted_record(c, current_tick, rec)))
                    &&& (spec_promotable(c, current_tick, state.memory_consent@) ==> exists|j: int|
                        0 <= j < r@.len() && (#[trigger] r@[j])
                            == StateDelta::MemoryCandidateRemoved(c.id))
                    &&& (spec_consent_askable(c, current_tick, state.memory_consent@) ==> exists|
                        j: int,
                    |
                        0 <= j < r@.len() && (#[trigger] r@[j]) == StateDelta::MemoryConsentAsked(
                            c.key,
                            current_tick,
                        ))
                    &&& (spec_prunable(c, current_tick) ==> exists|j: int|
                        0 <= j < r@.len() && (#[trigger] r@[j])
                            == StateDelta::MemoryCandidateRemoved(c.id))
                },
    {
        let mut r: Vec<StateDelta> = Vec::new();
        let ghost tel0 = old(telemetry).buffer@;
        let ghost cn_g = state.memory_candidates@.len();
        let ghost headroom = tel0.len() + state.long_term_memory@.len() + cn_g
            <= crate::telemetry::MAX_EVENTS as int;
        let ln: usize = state.long_term_memory.len();
        let mut i: usize = 0;
        while i < ln
            invariant
                i <= ln,
                ln == state.long_term_memory@.len(),
                state_ok(*state),
                recorder_ok(*telemetry),
                headroom == (tel0.len() + ln + cn_g <= crate::telemetry::MAX_EVENTS as int),
                cn_g == state.memory_candidates@.len(),
                telemetry.buffer@.len() <= tel0.len() + i,
                headroom ==> forall|j: int|
                    0 <= j < i ==> {
                        let rec = #[trigger] state.long_term_memory@[j];
                        (spec_out_of_grace(rec, current_tick) && spec_decayed_strength(rec)
                            < FORGET_THRESHOLD) ==> exists|k: int|
                            0 <= k < telemetry.buffer@.len() && telemetry.buffer@[k]
                                == (TelemetryEvent::MemoryEvent {
                                kind: MemoryEventKind::Forgotten,
                                memory_id: rec.id,
                            })
                    },
                forall|j: int|
                    0 <= j < r@.len() ==> spec_tick_delta_justified(
                        #[trigger] r@[j],
                        *state,
                        current_tick,
                    ),
                forall|j: int|
                    0 <= j < i ==> {
                        let rec = #[trigger] state.long_term_memory@[j];
                        spec_out_of_grace(rec, current_tick) ==> (if spec_decayed_strength(rec)
                            < FORGET_THRESHOLD {
                            exists|k: int|
                                0 <= k < r@.len() && (#[trigger] r@[k])
                                    == StateDelta::MemoryForgotten(rec.id)
                        } else {
                            exists|k: int|
                                0 <= k < r@.len() && (#[trigger] r@[k])
                                    == StateDelta::MemoryDecayed {
                                    id: rec.id,
                                    new_strength: spec_decayed_strength(rec) as u32,
                                }
                        })
                    },
            decreases ln - i,
        {
            let ghost r_before = r@;
            let ghost tel_entry = telemetry.buffer@;
            let rec = &state.long_term_memory[i];
            let gap: u64 = if current_tick.frame >= rec.last_accessed_at.frame {
                current_tick.frame - rec.last_accessed_at.frame
            } else {
                0
            };
            if gap > GRACE_TICKS {
                let ns = crate::score::decay_step(rec.strength, DECAY_FACTOR);
                if ns < FORGET_THRESHOLD {
                    telemetry.record(
                        TelemetryEvent::MemoryEvent {
                            kind: MemoryEventKind::Forgotten,
                            memory_id: rec.id,
                        },
                    );
                    proof {
                        assert(telemetry.buffer@[telemetry.buffer@.len() - 1]
                            == (TelemetryEvent::MemoryEvent {
                            kind: MemoryEventKind::Forgotten,
                            memory_id: state.long_term_memory@[i as int].id,
                        }));
                    }
                    r.push(StateDelta::MemoryForgotten(rec.id));
                    proof {
                        assert(r@[r@.len() - 1] == StateDelta::MemoryForgotten(
                            state.long_term_memory@[i as int].id,
                        ));
                    }
                } else {
                    r.push(StateDelta::MemoryDecayed { id: rec.id, new_strength: ns });
                    proof {
                        assert(r@[r@.len() - 1] == StateDelta::MemoryDecayed {
                            id: state.long_term_memory@[i as int].id,
                            new_strength: spec_decayed_strength(
                                state.long_term_memory@[i as int],
                            ) as u32,
                        });
                    }
                }
            }
            proof {
                assert(forall|k: int| 0 <= k < r_before.len() ==> r@[k] == #[trigger] r_before[k]);
                if headroom {
                    assert forall|j: int|
                        0 <= j < i + 1 implies {
                            let rec2 = #[trigger] state.long_term_memory@[j];
                            (spec_out_of_grace(rec2, current_tick) && spec_decayed_strength(rec2)
                                < FORGET_THRESHOLD) ==> exists|k: int|
                                0 <= k < telemetry.buffer@.len() && telemetry.buffer@[k]
                                    == (TelemetryEvent::MemoryEvent {
                                    kind: MemoryEventKind::Forgotten,
                                    memory_id: rec2.id,
                                })
                        } by {
                        let rec2 = state.long_term_memory@[j];
                        if j < i && spec_out_of_grace(rec2, current_tick) && spec_decayed_strength(
                            rec2,
                        ) < FORGET_THRESHOLD {
                            let k = choose|k: int|
                                0 <= k < tel_entry.len() && tel_entry[k]
                                    == (TelemetryEvent::MemoryEvent {
                                    kind: MemoryEventKind::Forgotten,
                                    memory_id: rec2.id,
                                });
                            assert(telemetry.buffer@[k] == tel_entry[k]);
                        }
                    }
                }
            }
            i = i + 1;
        }
        let ghost tel_after_records = telemetry.buffer@;
        let cn: usize = state.memory_candidates.len();
        let mut c_i: usize = 0;
        while c_i < cn
            invariant
                c_i <= cn,
                cn == state.memory_candidates@.len(),
                ln == state.long_term_memory@.len(),
                state_ok(*state),
                recorder_ok(*telemetry),
                headroom == (tel0.len() + ln + cn <= crate::telemetry::MAX_EVENTS as int),
                telemetry.buffer@.len() <= tel0.len() + ln + c_i,
                headroom ==> forall|k: int|
                    0 <= k < tel_after_records.len() ==> telemetry.buffer@[k]
                        == #[trigger] tel_after_records[k],
                headroom ==> tel_after_records.len() <= telemetry.buffer@.len(),
                headroom ==> forall|j: int|
                    0 <= j < ln ==> {
                        let rec = #[trigger] state.long_term_memory@[j];
                        (spec_out_of_grace(rec, current_tick) && spec_decayed_strength(rec)
                            < FORGET_THRESHOLD) ==> exists|k: int|
                            0 <= k < tel_after_records.len() && tel_after_records[k]
                                == (TelemetryEvent::MemoryEvent {
                                kind: MemoryEventKind::Forgotten,
                                memory_id: rec.id,
                            })
                    },
                headroom ==> forall|j: int|
                    0 <= j < c_i ==> {
                        let c = #[trigger] state.memory_candidates@[j];
                        spec_promotable(c, current_tick, state.memory_consent@) ==> exists|k: int|
                            0 <= k < telemetry.buffer@.len() && telemetry.buffer@[k]
                                == (TelemetryEvent::MemoryEvent {
                                kind: MemoryEventKind::Promoted,
                                memory_id: c.id,
                            })
                    },
                forall|j: int|
                    0 <= j < r@.len() ==> spec_tick_delta_justified(
                        #[trigger] r@[j],
                        *state,
                        current_tick,
                    ),
                forall|j: int|
                    0 <= j < ln ==> {
                        let rec = #[trigger] state.long_term_memory@[j];
                        spec_out_of_grace(rec, current_tick) ==> (if spec_decayed_strength(rec)
                            < FORGET_THRESHOLD {
                            exists|k: int|
                                0 <= k < r@.len() && (#[trigger] r@[k])
                                    == StateDelta::MemoryForgotten(rec.id)
                        } else {
                            exists|k: int|
                                0 <= k < r@.len() && (#[trigger] r@[k])
                                    == StateDelta::MemoryDecayed {
                                    id: rec.id,
                                    new_strength: spec_decayed_strength(rec) as u32,
                                }
                        })
                    },
                forall|j: int|
                    0 <= j < c_i ==> {
                        let c = #[trigger] state.memory_candidates@[j];
                        &&& (spec_promotable(c, current_tick, state.memory_consent@) ==> exists|
                            k: int,
                        |
                            0 <= k < r@.len() && ((#[trigger] r@[k]) matches StateDelta::MemoryPromoted(
                                rec,
                            ) && spec_promoted_record(c, current_tick, rec)))
                        &&& (spec_promotable(c, current_tick, state.memory_consent@) ==> exists|
                            k: int,
                        |
                            0 <= k < r@.len() && (#[trigger] r@[k])
                                == StateDelta::MemoryCandidateRemoved(c.id))
                        &&& (spec_consent_askable(c, current_tick, state.memory_consent@)
                            ==> exists|k: int|
                            0 <= k < r@.len() && (#[trigger] r@[k])
                                == StateDelta::MemoryConsentAsked(c.key, current_tick))
                        &&& (spec_prunable(c, current_tick) ==> exists|k: int|
                            0 <= k < r@.len() && (#[trigger] r@[k])
                                == StateDelta::MemoryCandidateRemoved(c.id))
                    },
            decreases cn - c_i,
        {
            let ghost r_before = r@;
            let ghost tel_entry2 = telemetry.buffer@;
            let ghost mut promoted_at: int = -1;
            let ghost mut asked_at: int = -1;
            let ghost mut pruned_at: int = -1;
            let c = &state.memory_candidates[c_i];
            let age: u64 = if current_tick.frame >= c.created_at.frame {
                current_tick.frame - c.created_at.frame
            } else {
                0
            };
            let eligible = c.reinforcement_count >= REINFORCEMENT_REQUIRED && age
                >= MIN_CONSOLIDATION_WINDOW;
            if eligible {
                let consent = consent_lookup(&state.memory_consent, c.key);
                match consent {
                    MemoryConsentState::Granted => {
                        let record = MemoryRecord {
                            id: c.id,
                            intent: c.intent.clone(),
                            first_committed_at: current_tick,
                            last_accessed_at: current_tick,
                            strength: INITIAL_STRENGTH,
                        };
                        telemetry.record(
                            TelemetryEvent::MemoryEvent {
                                kind: MemoryEventKind::Promoted,
                                memory_id: c.id,
                            },
                        );
                        proof {
                            assert(telemetry.buffer@[telemetry.buffer@.len() - 1]
                                == (TelemetryEvent::MemoryEvent {
                                kind: MemoryEventKind::Promoted,
                                memory_id: state.memory_candidates@[c_i as int].id,
                            }));
                            promoted_at = r@.len() as int;
                        }
                        r.push(StateDelta::MemoryPromoted(record));
                        r.push(StateDelta::MemoryCandidateRemoved(c.id));
                    },
                    MemoryConsentState::Unknown => {
                        let is_statement = matches!(c.intent.hypothesis, IntentHypothesis::Statement);
                        if is_statement && c.intent.confidence >= UNKNOWN_CONSENT_CONFIDENCE {
                            proof {
                                asked_at = r@.len() as int;
                            }
                            r.push(StateDelta::MemoryConsentAsked(c.key, current_tick));
                        }
                    },
                    _ => {},
                }
            }
            let idle: u64 = if current_tick.frame >= c.last_reinforced_at.frame {
                current_tick.frame - c.last_reinforced_at.frame
            } else {
                0
            };
            if idle > MAX_CANDIDATE_AGE {
                proof {
                    pruned_at = r@.len() as int;
                }
                r.push(StateDelta::MemoryCandidateRemoved(c.id));
            }
            proof {
                let cc = state.memory_candidates@[c_i as int];
                assert(forall|k: int| 0 <= k < r_before.len() ==> r@[k] == #[trigger] r_before[k]);
                if promoted_at >= 0 {
                    assert(r@[promoted_at] matches StateDelta::MemoryPromoted(rec)
                        && spec_promoted_record(cc, current_tick, rec));
                    assert(r@[promoted_at + 1] == StateDelta::MemoryCandidateRemoved(cc.id));
                }
                if asked_at >= 0 {
                    assert(r@[asked_at] == StateDelta::MemoryConsentAsked(cc.key, current_tick));
                }
                if pruned_at >= 0 {
                    assert(r@[pruned_at] == StateDelta::MemoryCandidateRemoved(cc.id));
                }
                if spec_promotable(cc, current_tick, state.memory_consent@) {
                    assert(promoted_at >= 0);
                }
                if spec_consent_askable(cc, current_tick, state.memory_consent@) {
                    assert(asked_at >= 0);
                }
                if spec_prunable(cc, current_tick) {
                    assert(pruned_at >= 0);
                }
                if headroom {
                    assert forall|j: int|
                        0 <= j < c_i + 1 implies {
                            let c2 = #[trigger] state.memory_candidates@[j];
                            spec_promotable(c2, current_tick, state.memory_consent@) ==> exists|
                                k: int,
                            |
                                0 <= k < telemetry.buffer@.len() && telemetry.buffer@[k]
                                    == (TelemetryEvent::MemoryEvent {
                                    kind: MemoryEventKind::Promoted,
                                    memory_id: c2.id,
                                })
                        } by {
                        let c2 = state.memory_candidates@[j];
                        if j < c_i && spec_promotable(c2, current_tick, state.memory_consent@) {
                            let k = choose|k: int|
                                0 <= k < tel_entry2.len() && tel_entry2[k]
                                    == (TelemetryEvent::MemoryEvent {
                                    kind: MemoryEventKind::Promoted,
                                    memory_id: c2.id,
                                });
                            assert(telemetry.buffer@[k] == tel_entry2[k]);
                        }
                    }
                }
            }
            c_i = c_i + 1;
        }
        r
    }
}

/// The consent state recorded for a key, `Unknown` when none is.
fn consent_lookup(cs: &Vec<MemoryConsent>, key: MemoryKey) -> (r: MemoryConsentState)
    ensures
        r == spec_consent_lookup(cs@, key),
{
    let n: usize = cs.len();
    let mut i: usize = 0;
    proof {
        assert(cs@.subrange(0, n as int) =~= cs@);
    }
    while i < n
        invariant
            i <= n,
            n == cs@.len(),
            spec_consent_lookup(cs@.subrange(i as int, n as int), key) == spec_consent_lookup(
                cs@,
                key,
            ),
        decreases n - i,
    {
        proof {
            assert(cs@.subrange(i as int, n as int).drop_first() =~= cs@.subrange(
                i + 1,
                n as int,
            ));
            assert(cs@.subrange(i as int, n as int).first() == cs@[i as int]);
        }
        if cs[i].memory_key == key {
            return cs[i].state;
        }
        i = i + 1;
    }
    proof {
        assert(cs@.subrange(n as int, n as int) =~= Seq::<MemoryConsent>::empty());
    }
    MemoryConsentState::Unknown
}

} // verus!
