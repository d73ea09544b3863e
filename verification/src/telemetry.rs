//! Telemetry: an append-only bounded ring of privacy-clean events.
//!
//! Privacy is structural: no event variant can carry text, audio or
//! embeddings — only identifiers, enum tags, counts and durations. The
//! recorder is observational only; no decision code reads it.

use vstd::prelude::*;
use std::collections::VecDeque;
use crate::event::OutputId;
use crate::lhim::IntentStatus;
use crate::memory::MemoryId;
use crate::presence::PresenceState;
use crate::tick::Tick;

verus! {

/// The ring never holds more than this many events; the oldest fall out.
pub const MAX_EVENTS: usize = 10000;

/// What happened to an output.
#[derive(Debug, Clone, Copy, PartialEq, Eq, Structural)]
pub enum OutputEventKind {
    DraftStarted,
    HardCommit,
    SoftCommit,
    Cancelled,
}

/// What caused an interruption.
#[derive(Debug, Clone, Copy, PartialEq, Eq, Structural)]
pub enum InterruptionSource {
    AudioSpeechStart,
    ExplicitCancel,
    NewIntentConflict,
}

/// What happened to a memory.
#[derive(Debug, Clone, Copy, PartialEq, Eq, Structural)]
pub enum MemoryEventKind {
    CandidateCreated,
    Reinforced,
    Promoted,
    Decayed,
    Forgotten,
    /// A consent or metadata update, recorded without content.
    AttributesUpdated,
}

/// A dialogue act with its content stripped.
#[derive(Debug, Clone, Copy, PartialEq, Eq, Structural)]
pub enum DialogueActKind {
    AskClarification,
    Confirm,
    Offer,
    Wait,
    StaySilent,
}

/// Session lifecycle markers.
#[derive(Debug, Clone, Copy, PartialEq, Eq, Structural)]
pub enum LifecycleEvent {
    OnboardingCompleted,
}

/// One telemetry event. Every field is an identifier, an enum tag, a count
/// or a duration; the variant set admits no user content.
#[derive(Debug, Clone, Copy, PartialEq, Eq, Structural)]
pub enum TelemetryEvent {
    PresenceTransition { from: PresenceState, to: PresenceState, tick: Tick },
    SilencePeriod { duration_ticks: u64 },
    OutputLifecycle { output_id: OutputId, event: OutputEventKind, latency_ticks: u64 },
    Interruption { source: InterruptionSource, cancel_latency_ticks: u64 },
    IntentLifecycle { intent_id: u64, from: IntentStatus, to: IntentStatus },
    IntentResumption { intent_id: u64, dormant_ticks: u64 },
    MemoryEvent { kind: MemoryEventKind, memory_id: MemoryId },
    DialogueAct { act: DialogueActKind },
    Lifecycle(LifecycleEvent),
    SafeModeActive,
    SessionSummary {
        duration_ticks: u64,
        /// Share of the session spent in silence, in ten-thousandths.
        silence_share: u32,
        interruptions: u64,
        resumed_intents: u64,
        memory_consents: u64,
    },
}

/// The stripped kind of a dialogue act.
pub open spec fn spec_act_kind(act: crate::intent::DialogueAct) -> DialogueActKind {
    match act {
        crate::intent::DialogueAct::AskClarification(_) => DialogueActKind::AskClarification,
        crate::intent::DialogueAct::Confirm(_) => DialogueActKind::Confirm,
        crate::intent::DialogueAct::Offer(_) => DialogueActKind::Offer,
        crate::intent::DialogueAct::Wait => DialogueActKind::Wait,
        crate::intent::DialogueAct::StaySilent => DialogueActKind::StaySilent,
    }
}

impl DialogueActKind {
    /// Strip a dialogue act to its kind; the content never enters telemetry.
    pub fn from(act: &crate::intent::DialogueAct) -> (r: DialogueActKind)
        ensures
            r == spec_act_kind(*act),
    {
        match act {
            crate::intent::DialogueAct::AskClarification(_) => DialogueActKind::AskClarification,
            crate::intent::DialogueAct::Confirm(_) => DialogueActKind::Confirm,
            crate::intent::DialogueAct::Offer(_) => DialogueActKind::Offer,
            crate::intent::DialogueAct::Wait => DialogueActKind::Wait,
            crate::intent::DialogueAct::StaySilent => DialogueActKind::StaySilent,
        }
    }
}

/// The bounded event ring.
#[derive(Debug)]
pub struct TelemetryRecorder {
    pub buffer: VecDeque<TelemetryEvent>,
}

/// The ring respects its bound.
pub open spec fn recorder_ok(r: TelemetryRecorder) -> bool {
    r.buffer@.len() <= MAX_EVENTS
}

impl TelemetryRecorder {
    /// An empty ring.
    pub fn new() -> (r: Self)
        ensures
            r.buffer@.len() == 0,
            recorder_ok(r),
    {
        TelemetryRecorder { buffer: VecDeque::new() }
    }

    /// Append an event; at capacity, the oldest event falls out first.
    pub fn record(&mut self, event: TelemetryEvent)
        requires
            recorder_ok(*old(self)),
        ensures
            recorder_ok(*final(self)),
            final(self).buffer@ == if old(self).buffer@.len() < MAX_EVENTS {
                old(self).buffer@.push(event)
            } else {
                old(self).buffer@.drop_first().push(event)
            },
    {
        if self.buffer.len() >= MAX_EVENTS {
            let _ = self.buffer.pop_front();
        }
        self.buffer.push_back(event);
    }

    /// Drop everything.
    pub fn clear(&mut self)
        ensures
            final(self).buffer@.len() == 0,
            recorder_ok(*final(self)),
    {
        self.buffer.clear();
    }
}

} // verus!
