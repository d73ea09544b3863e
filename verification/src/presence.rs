//! The presence graph: a pure state machine of lifecycle modes.
//!
//! Transitions are requests, not forces; anything the graph does not list is
//! rejected, which keeps authority over presence inside the core.

use vstd::prelude::*;

verus! {

/// The lifecycle modes of the kernel's presence.
#[derive(Debug, Clone, Copy, PartialEq, Eq, Hash, Structural)]
pub enum PresenceState {
    /// Process running, nothing heard, nothing shown.
    Dormant,
    /// Listening, producing no output.
    Attentive,
    /// Actively processing input, fully interruptible.
    Engaged,
    /// A long-horizon intent exists but calls for no immediate action.
    QuietlyHolding,
    /// Explicitly paused by the user; cognition frozen.
    Suspended,
}

impl Default for PresenceState {
    /// The kernel boots dormant: silence is the default.
    fn default() -> (s: Self)
        ensures
            s == PresenceState::Dormant,
    {
        PresenceState::Dormant
    }
}

/// Requests for a presence change. The graph validates them.
#[derive(Debug, Clone, Copy, PartialEq, Eq, Structural)]
pub enum PresenceRequest {
    SystemBoot,
    WakeWordDetected,
    InputActivity,
    OutputDrafted,
    OutputCompleted,
    LongTermIntentDetected,
    IntentResolved,
    UserSuspend,
    UserResume,
    Timeout,
}

/// The full transition relation. `None` means the request is rejected and the
/// state must not change.
pub open spec fn spec_transition(current: PresenceState, request: PresenceRequest) -> Option<
    PresenceState,
> {
    match (current, request) {
        (PresenceState::Dormant, PresenceRequest::SystemBoot) => Some(PresenceState::Attentive),
        (PresenceState::Attentive, PresenceRequest::WakeWordDetected) => Some(
            PresenceState::Engaged,
        ),
        (PresenceState::Attentive, PresenceRequest::InputActivity) => Some(PresenceState::Engaged),
        (PresenceState::Attentive, PresenceRequest::UserSuspend) => Some(PresenceState::Suspended),
        (PresenceState::Engaged, PresenceRequest::OutputCompleted) => Some(PresenceState::Attentive),
        (PresenceState::Engaged, PresenceRequest::IntentResolved) => Some(PresenceState::Attentive),
        (PresenceState::Engaged, PresenceRequest::LongTermIntentDetected) => Some(
            PresenceState::QuietlyHolding,
        ),
        (PresenceState::Engaged, PresenceRequest::UserSuspend) => Some(PresenceState::Suspended),
        (PresenceState::Engaged, PresenceRequest::Timeout) => Some(PresenceState::Attentive),
        (PresenceState::QuietlyHolding, PresenceRequest::InputActivity) => Some(
            PresenceState::Engaged,
        ),
        (PresenceState::QuietlyHolding, PresenceRequest::IntentResolved) => Some(
            PresenceState::Attentive,
        ),
        (PresenceState::QuietlyHolding, PresenceRequest::UserSuspend) => Some(
            PresenceState::Suspended,
        ),
        (PresenceState::Suspended, PresenceRequest::UserResume) => Some(PresenceState::Attentive),
        _ => None,
    }
}

/// The state machine that governs presence transitions.
pub struct PresenceGraph;

impl PresenceGraph {
    /// Pure function: (current state, request) -> new state, or `None` when
    /// the transition is invalid and is to be ignored.
    pub fn transition(current: PresenceState, request: PresenceRequest) -> (r: Option<
        PresenceState,
    >)
        ensures
            r == spec_transition(current, request),
    {
        match (current, request) {
            (PresenceState::Dormant, PresenceRequest::SystemBoot) => Some(PresenceState::Attentive),
            (PresenceState::Attentive, PresenceRequest::WakeWordDetected) => Some(
                PresenceState::Engaged,
            ),
            (PresenceState::Attentive, PresenceRequest::InputActivity) => Some(
                PresenceState::Engaged,
            ),
            (PresenceState::Attentive, PresenceRequest::UserSuspend) => Some(
                PresenceState::Suspended,
            ),
            (PresenceState::Engaged, PresenceRequest::OutputCompleted) => Some(
                PresenceState::Attentive,
            ),
            (PresenceState::Engaged, PresenceRequest::IntentResolved) => Some(
                PresenceState::Attentive,
            ),
            (PresenceState::Engaged, PresenceRequest::LongTermIntentDetected) => Some(
                PresenceState::QuietlyHolding,
            ),
            (PresenceState::Engaged, PresenceRequest::UserSuspend) => Some(
                PresenceState::Suspended,
            ),
            (PresenceState::Engaged, PresenceRequest::Timeout) => Some(PresenceState::Attentive),
            (PresenceState::QuietlyHolding, PresenceRequest::InputActivity) => Some(
                PresenceState::Engaged,
            ),
            (PresenceState::QuietlyHolding, PresenceRequest::IntentResolved) => Some(
                PresenceState::Attentive,
            ),
            (PresenceState::QuietlyHolding, PresenceRequest::UserSuspend) => Some(
                PresenceState::Suspended,
            ),
            (PresenceState::Suspended, PresenceRequest::UserResume) => Some(
                PresenceState::Attentive,
            ),
            _ => None,
        }
    }
}

} // verus!
