use nexus::consolidator::MemoryConsolidator;
use nexus::intent::{IntentCandidate, IntentHypothesis, IntentStability};
use nexus::memory::{MemoryCandidate, MemoryConsent, MemoryConsentState, MemoryKey, MemoryRecord};
use nexus::reactor::{Reactor, ReactorConfig};
use nexus::state::{SharedState, StateDelta};
use nexus::telemetry::TelemetryRecorder;
use nexus::tick::Tick;

fn candidate(id: u64, hypothesis: IntentHypothesis, confidence: u32, count: u32) -> MemoryCandidate {
    MemoryCandidate {
        id,
        key: MemoryKey { hypothesis, symbol_fingerprint: id },
        intent: IntentCandidate {
            id,
            hypothesis,
            confidence,
            source_symbol_ids: vec![1],
            stability: IntentStability::Stable,
            fingerprint: id,
        },
        created_at: Tick { frame: 0 },
        reinforcement_count: count,
        last_reinforced_at: Tick { frame: 0 },
    }
}

fn record(id: u64, strength: u32, last_accessed: u64) -> MemoryRecord {
    MemoryRecord {
        id,
        intent: IntentCandidate {
            id,
            hypothesis: IntentHypothesis::Statement,
            confidence: 9000,
            source_symbol_ids: vec![1],
            stability: IntentStability::Stable,
            fingerprint: id,
        },
        first_committed_at: Tick { frame: 0 },
        last_accessed_at: Tick { frame: last_accessed },
        strength,
    }
}

#[test]
fn test_candidate_pruning() {
    let cons = MemoryConsolidator::new();
    let mut state = SharedState::new();
    let mut tel = TelemetryRecorder::new();
    // Idle past the maximum candidate age, and not promotable.
    state.memory_candidates.push(candidate(9, IntentHypothesis::Command, 9000, 1));

    let deltas = cons.tick(Tick { frame: 13000 }, &state, &mut tel);
    assert!(
        deltas
            .iter()
            .any(|d| matches!(d, StateDelta::MemoryCandidateRemoved(9))),
        "Stale candidate should be pruned"
    );
    assert!(!deltas.iter().any(|d| matches!(d, StateDelta::MemoryPromoted(_))));
}

#[test]
fn test_ltm_decay_and_forgetting() {
    let cons = MemoryConsolidator::new();
    let mut state = SharedState::new();
    let mut tel = TelemetryRecorder::new();
    state.long_term_memory.push(record(1, 5000, 0));
    state.long_term_memory.push(record(2, 900, 0));
    // Accessed recently: still inside the grace window, untouched.
    state.long_term_memory.push(record(3, 900, 250));

    let deltas = cons.tick(Tick { frame: 300 }, &state, &mut tel);

    // One decay step at 0.9995: 5000 -> 4997.
    assert!(
        deltas
            .iter()
            .any(|d| matches!(d, StateDelta::MemoryDecayed { id: 1, new_strength: 4997 })),
        "Strength should have decreased"
    );
    assert!(
        deltas.iter().any(|d| matches!(d, StateDelta::MemoryForgotten(2))),
        "Weak memory should be forgotten"
    );
    assert!(
        !deltas.iter().any(|d| matches!(
            d,
            StateDelta::MemoryForgotten(3) | StateDelta::MemoryDecayed { id: 3, .. }
        )),
        "Recent access postpones decay"
    );
}

#[test]
fn test_unknown_consent_asks_instead_of_promoting() {
    let cons = MemoryConsolidator::new();
    let mut state = SharedState::new();
    let mut tel = TelemetryRecorder::new();
    // A very confident statement with unknown consent: eligible for the
    // implicit path, which must ask rather than promote.
    state.memory_candidates.push(candidate(5, IntentHypothesis::Statement, 9600, 3));

    let deltas = cons.tick(Tick { frame: 2000 }, &state, &mut tel);
    assert!(deltas
        .iter()
        .any(|d| matches!(d, StateDelta::MemoryConsentAsked(_, _))));
    assert!(
        !deltas.iter().any(|d| matches!(d, StateDelta::MemoryPromoted(_))),
        "Should NOT promote without an answer"
    );
}

#[test]
fn test_declined_consent_blocks_promotion() {
    let cons = MemoryConsolidator::new();
    let mut state = SharedState::new();
    let mut tel = TelemetryRecorder::new();
    let c = candidate(6, IntentHypothesis::Command, 9000, 5);
    let mut consent = MemoryConsent::new(c.key, Tick { frame: 0 });
    consent.state = MemoryConsentState::Declined;
    state.memory_consent.push(consent);
    state.memory_candidates.push(c);

    let deltas = cons.tick(Tick { frame: 2000 }, &state, &mut tel);
    assert!(!deltas.iter().any(|d| matches!(d, StateDelta::MemoryPromoted(_))));
    assert!(!deltas.iter().any(|d| matches!(d, StateDelta::MemoryConsentAsked(_, _))));
}

#[test]
fn test_safe_mode_produces_no_memory_deltas() {
    let mut r = Reactor::new(ReactorConfig { safe_mode: true });
    let c = candidate(8, IntentHypothesis::Command, 9000, 5);
    let mut consent = MemoryConsent::new(c.key, Tick { frame: 0 });
    consent.state = MemoryConsentState::Granted;
    r.state.memory_consent.push(consent);
    r.state.memory_candidates.push(c);

    for _ in 0..1300 {
        r.tick_step(vec![]);
    }

    assert!(
        r.state.long_term_memory.is_empty(),
        "Safe mode must suppress all memory consolidation"
    );
    assert_eq!(r.state.memory_candidates.len(), 1, "The candidate is left untouched");
}

#[test]
fn test_decay_model() {
    // An unreinforced intent's score follows the rate taken to the whole
    // gap: after 5000 ticks from 1.0 it sits near 0.223 and the intent has
    // gone dormant; far lower still, it is invalidated terminally.
    let lhim = nexus::lhim::LongHorizonIntentManager::new();
    let mut tel = TelemetryRecorder::new();
    let mut state = SharedState::new();
    state.active_intents.push(nexus::lhim::LongHorizonIntent {
        id: 1,
        hypothesis: IntentHypothesis::Command,
        source_symbol_ids: vec![1],
        created_at: Tick { frame: 0 },
        last_active_at: Tick { frame: 0 },
        last_updated_at: Tick { frame: 0 },
        suspended_at: None,
        decay_score: 10000,
        status: nexus::lhim::IntentStatus::Active,
    });

    let deltas = lhim.tick(Tick { frame: 5000 }, &state, &mut tel);
    assert_eq!(deltas.len(), 1);
    match &deltas[0] {
        StateDelta::LongHorizonIntentUpdate(u) => {
            assert_eq!(u.decay_score, 2230, "Score should be low");
            assert_eq!(u.status, nexus::lhim::IntentStatus::Dormant, "Should be Dormant");
        }
        _ => panic!("expected an intent update"),
    }

    let deltas = lhim.tick(Tick { frame: 8000 }, &state, &mut tel);
    match &deltas[0] {
        StateDelta::LongHorizonIntentUpdate(u) => {
            assert_eq!(u.decay_score, 906);
            assert_eq!(
                u.status,
                nexus::lhim::IntentStatus::Invalidated,
                "Intent must dissolve when confidence drops low enough"
            );
        }
        _ => panic!("expected an intent update"),
    }
}
