use nexus::gate::{check_gate, CrystallizationDecision};
use nexus::latent::{LatentSlot, Modality};
use nexus::monitor::{SelfObservation, SelfObservationMonitor};
use nexus::state::{SharedState, StateDelta};
use nexus::tick::Tick;

// A state with one latent slot whose confidence is the complement of the
// wanted uncertainty, in ten-thousandths of one.
fn state_with_uncertainty(uncertainty: u32) -> SharedState {
    let mut state = SharedState::new();
    state.latents.slots.push(LatentSlot {
        values: vec![0],
        confidence: 10000 - uncertainty,
        created_at: Tick { frame: 0 },
        modality: Modality::Text,
        decay_rate: 0,
    });
    state
}

#[test]
fn test_unprompted_correction_monitor() {
    let mut monitor = SelfObservationMonitor::new();
    let tick = 1;

    let events = vec![SelfObservation::UserCorrection { output_id: None }];

    let delta = monitor.tick(tick, &events).expect("Should emit delta");

    match delta {
        StateDelta::MetaLatentUpdate { delta } => {
            assert!(delta.confidence_penalty > 0, "Penalty should rise after correction");
            assert!(delta.correction_bias > 0, "Correction bias should rise");
            println!("Penalty: {}, Bias: {}", delta.confidence_penalty, delta.correction_bias);
        }
        _ => panic!("Wrong delta type"),
    }
}

#[test]
fn test_confidence_adjustment_gate() {
    let mut state = state_with_uncertainty(6500);

    state.latents.slots[0].confidence = 3000;

    let _decision = check_gate(&state);

    state.meta_latents.confidence_penalty = 10000;

    let decision_biased = check_gate(&state);
    assert_eq!(
        decision_biased,
        CrystallizationDecision::Deny,
        "High penalty should strictly deny moderate uncertainty"
    );
}

#[test]
fn test_recovery_decay() {
    let mut monitor = SelfObservationMonitor::new();
    let mut tick = 0;

    let events = vec![SelfObservation::UserCorrection { output_id: None }];
    let _ = monitor.tick(tick, &events);

    let d1 = monitor.tick(tick + 1, &vec![]);
    let start_penalty = if let Some(StateDelta::MetaLatentUpdate { delta }) = d1 {
        delta.confidence_penalty
    } else {
        0
    };
    assert!(start_penalty > 0);

    tick += 100;

    let d2 = monitor.tick(tick, &vec![]);
    let end_penalty = if let Some(StateDelta::MetaLatentUpdate { delta }) = d2 {
        delta.confidence_penalty
    } else {
        0
    };

    println!("Start: {}, End: {}", start_penalty, end_penalty);
    assert!(end_penalty < start_penalty, "Penalty must decay over time");
}

#[test]
fn test_silence_logic() {
    let state = state_with_uncertainty(4500);

    let decision = check_gate(&state);
    assert_eq!(
        decision,
        CrystallizationDecision::AllowPartial,
        "Baseline should allow partial"
    );

    let mut state2 = state_with_uncertainty(5500);
    state2.meta_latents.confidence_penalty = 10000;

    let decision2 = check_gate(&state2);
    assert_eq!(
        decision2,
        CrystallizationDecision::Deny,
        "Should silence moderate uncertainty when penalized"
    );
}
