//! The planner interface: epochs for stale rejection, the planner's intent
//! vocabulary, and the state window a dispatch carries.

use vstd::prelude::*;
use crate::event::OutputId;
use crate::latent::Modality;
use crate::score::Score;
use crate::tick::Tick;

verus! {

/// The (tick, state version) pair a planner dispatch is tagged with, used to
/// reject stale proposals.
#[derive(Debug, Clone, Copy, PartialEq, Eq, Hash, Structural)]
pub struct PlanningEpoch {
    pub tick: Tick,
    pub state_version: u64,
}

/// What the planner proposes. Anything malformed collapses to `DoNothing`
/// before it reaches the kernel.
#[derive(Debug, Clone)]
pub enum Intent {
    BeginResponse { confidence: Score },
    /// Logical time, not wall clock.
    Delay { ticks: u64 },
    AskClarification { context: String },
    ReviseStatement { ref_id: OutputId, correction: String },
    DoNothing,
}

/// One latent slot as the planner may see it: channel and confidence only,
/// never the raw values. This is the textual firewall in structured form.
#[derive(Debug, Clone, Copy, PartialEq, Eq, Structural)]
pub struct LatentSummary {
    pub modality: Modality,
    pub confidence: Score,
}

/// A meta-mood label derived from the meta-latents.
#[derive(Debug, Clone, Copy, PartialEq, Eq, Structural)]
pub enum MoodLabel {
    Cautious,
    Sensitive,
    Reflective,
}

/// The strongest active long-horizon intent, as the planner may see it.
#[derive(Debug, Clone)]
pub struct IntentContext {
    pub active_focus: Option<crate::intent::IntentHypothesis>,
    pub strength: Score,
}

/// The state window handed to the planner at dispatch. An empty latent
/// summary means the kernel is quiescent; an empty mood list means confident.
#[derive(Debug, Clone)]
pub struct StateSnapshot {
    pub epoch: PlanningEpoch,
    pub last_input_ticks: u64,
    pub user_active: bool,
    pub active_outputs: usize,
    pub recent_interruptions: usize,
    pub latent_summary: Vec<LatentSummary>,
    pub meta_mood: Vec<MoodLabel>,
    pub intent_context: IntentContext,
}

} // verus!
