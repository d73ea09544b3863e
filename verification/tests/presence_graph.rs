use nexus::presence::{PresenceGraph, PresenceRequest, PresenceState};
use nexus::state::SharedState;

#[test]
fn test_presence_initial_state() {
    let state = SharedState::default();
    assert_eq!(
        state.presence,
        PresenceState::Dormant,
        "System must boot into Dormant state (Silence Default)"
    );
}

#[test]
fn test_presence_transitions_valid() {
    let mut current = PresenceState::Dormant;

    current = PresenceGraph::transition(current, PresenceRequest::SystemBoot)
        .expect("Boot should transition to Attentive");
    assert_eq!(current, PresenceState::Attentive);

    current = PresenceGraph::transition(current, PresenceRequest::WakeWordDetected)
        .expect("Wake word should engage");
    assert_eq!(current, PresenceState::Engaged);

    current = PresenceGraph::transition(current, PresenceRequest::OutputCompleted)
        .expect("Output completion should return to listening");
    assert_eq!(current, PresenceState::Attentive);
}

#[test]
fn test_core_authority_invalid_transitions() {
    let current = PresenceState::Dormant;

    let result = PresenceGraph::transition(current, PresenceRequest::OutputCompleted);
    assert!(
        result.is_none(),
        "Core should reject invalid transition from Dormant via OutputCompleted"
    );

    let result = PresenceGraph::transition(current, PresenceRequest::LongTermIntentDetected);
    assert!(result.is_none(), "Core should reject jump to Holding from Dormant");
}

#[test]
fn test_interruption_supremacy() {
    let current = PresenceState::Engaged;
    let next = PresenceGraph::transition(current, PresenceRequest::InputActivity);
    assert!(
        next.is_none(),
        "Interruption while Engaged should result in no state change (Handled No-Op)"
    );
}

#[test]
fn test_suspend_integrity() {
    let mut current = PresenceState::Engaged;

    current = PresenceGraph::transition(current, PresenceRequest::UserSuspend)
        .expect("Suspend should work from Engaged");
    assert_eq!(current, PresenceState::Suspended);

    let try_wake = PresenceGraph::transition(current, PresenceRequest::InputActivity);
    assert!(try_wake.is_none(), "Input should not wake Suspended state");

    current = PresenceGraph::transition(current, PresenceRequest::UserResume)
        .expect("Resume should work");
    assert_eq!(current, PresenceState::Attentive);
}

#[test]
fn test_presence_stability_under_ui_churn() {
    let mut current = PresenceState::Dormant;

    current = PresenceGraph::transition(current, PresenceRequest::SystemBoot)
        .expect("Boot should transition");
    assert_eq!(current, PresenceState::Attentive);

    assert_eq!(
        current,
        PresenceState::Attentive,
        "State must remain Attentive after UI churn"
    );
}
