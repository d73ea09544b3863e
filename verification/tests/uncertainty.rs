use nexus::latent::{LatentSlot, LatentState, Modality};
use nexus::tick::Tick;

#[test]
fn test_phase6_0_uncertainty_math() {
    // Uncertainty is the complement of the mean slot confidence, and an
    // empty slate counts as quiescent.

    // Case A: empty.
    let mut state = LatentState::default();
    assert_eq!(
        state.global_uncertainty(),
        0,
        "Empty state should have 0 uncertainty (Quiescent)"
    );

    // Case B: one low-confidence slot (confusion).
    state.slots.push(LatentSlot {
        values: vec![],
        confidence: 1000,
        created_at: Tick { frame: 0 },
        modality: Modality::Audio,
        decay_rate: 0,
    });
    assert_eq!(state.global_uncertainty(), 9000, "Low conf should imply High Uncertainty");

    // Case C: mixed confidence averages out.
    state.slots.push(LatentSlot {
        values: vec![],
        confidence: 9000,
        created_at: Tick { frame: 0 },
        modality: Modality::Visual,
        decay_rate: 0,
    });
    assert_eq!(state.global_uncertainty(), 5000, "Mixed conf should average out");

    // Case D: full confidence.
    state.slots.clear();
    state.slots.push(LatentSlot {
        values: vec![],
        confidence: 10000,
        created_at: Tick { frame: 0 },
        modality: Modality::Visual,
        decay_rate: 0,
    });
    assert_eq!(state.global_uncertainty(), 0, "High confidence should imply 0 uncertainty");
}
