//! The scheduler: a pure projection from a planner intent to a state delta
//! and a side effect. Output identifiers are deterministic: the tick frame
//! and the intent's ordinal within it.

use vstd::prelude::*;
use crate::event::{Output, OutputId, OutputStatus};
use crate::memory::MemoryKey;
use crate::planner::Intent;
use crate::speech::SpeechIntent;
use crate::state::StateDelta;
use crate::tick::Tick;

verus! {

/// The task every scheduled output belongs to; cancellation cascades over it.
pub open spec fn spec_root_task() -> Seq<char> {
    "root_task"@
}

/// An action the reactor cannot perform itself, delegated to the driver.
/// The set is closed; `SpawnAudio` for crystallized output is only ever
/// produced once crystallization allows it.
#[derive(Debug, Clone)]
pub enum SideEffect {
    /// Idempotent sink.
    Log(String),
    /// Start speech playback; the driver must cancel any prior spawn first.
    SpawnAudio(OutputId, String),
    /// Cancel current playback immediately.
    StopAudio,
    /// Transcribe a finalized segment.
    RequestTranscription { segment_id: u64 },
    /// Put a memory-consent question to the user.
    AskMemoryConsent { key: MemoryKey, prompt_id: u64 },
    /// Generate speech for a dialogue intent out of process.
    RequestSpeech { intent: SpeechIntent, output_id: u64 },
}

/// What a freshly scheduled output looks like: a draft at the deterministic
/// id, carrying the given text, parented to the root task.
pub open spec fn spec_draft_output(o: Output, tick: Tick, ordinal: u16, text: Seq<char>) -> bool {
    &&& o.id == OutputId { tick: tick.frame, ordinal }
    &&& o.content@ == text
    &&& o.status == OutputStatus::Draft
    &&& o.proposed_at == tick
    &&& o.committed_at is None
    &&& o.parent_id matches Some(p) && p@ == spec_root_task()
}

/// The scheduler's full behaviour, per intent variant.
pub open spec fn spec_scheduled(
    intent: Intent,
    tick: Tick,
    ordinal: u16,
    delta: Option<StateDelta>,
    effect: Option<SideEffect>,
) -> bool {
    match intent {
        Intent::DoNothing => delta is None && effect is None,
        Intent::Delay { ticks } => delta is None && (effect matches Some(
            SideEffect::Log(m),
        ) && m@ == "Planner decided to Delay"@),
        Intent::AskClarification { context } => {
            &&& delta matches Some(StateDelta::OutputProposed(o)) && spec_draft_output(
                o,
                tick,
                ordinal,
                "Could you clarify? Context: "@ + context@,
            )
            &&& effect matches Some(SideEffect::SpawnAudio(id, text)) && id == OutputId {
                tick: tick.frame,
                ordinal,
            } && text@ == "Could you clarify? Context: "@ + context@
        },
        Intent::ReviseStatement { ref_id, correction } => {
            &&& delta matches Some(StateDelta::OutputProposed(o)) && spec_draft_output(
                o,
                tick,
                ordinal,
                "Correction: "@ + correction@,
            )
            &&& effect matches Some(SideEffect::SpawnAudio(id, text)) && id == OutputId {
                tick: tick.frame,
                ordinal,
            } && text@ == "Correction: "@ + correction@
        },
        Intent::BeginResponse { confidence } => {
            &&& delta matches Some(StateDelta::OutputProposed(o)) && spec_draft_output(
                o,
                tick,
                ordinal,
                "Speaking from a quiet state; interrupt at any time to stop this message."@,
            )
            &&& effect matches Some(SideEffect::SpawnAudio(id, text)) && id == OutputId {
                tick: tick.frame,
                ordinal,
            } && text@
                == "Speaking from a quiet state; interrupt at any time to stop this message."@
        },
    }
}

/// The pure projection from intents to deltas and effects.
#[derive(Debug)]
pub struct Scheduler;

impl Scheduler {
    /// Schedule one accepted intent at the given tick and ordinal.
    pub fn schedule(&self, intent: Intent, tick: Tick, ordinal: u16) -> (r: (
        Option<StateDelta>,
        Option<SideEffect>,
    ))
        ensures
            spec_scheduled(intent, tick, ordinal, r.0, r.1),
    {
        let output_id = OutputId { tick: tick.frame, ordinal };
        match intent {
            Intent::DoNothing => (None, None),
            Intent::Delay { ticks: _ } => (
                None,
                Some(SideEffect::Log("Planner decided to Delay".to_owned())),
            ),
            Intent::AskClarification { context } => {
                let mut text = "Could you clarify? Context: ".to_owned();
                text.append(context.as_str());
                let output = Output {
                    id: output_id,
                    content: text.clone(),
                    status: OutputStatus::Draft,
                    proposed_at: tick,
                    committed_at: None,
                    parent_id: Some("root_task".to_owned()),
                };
                (
                    Some(StateDelta::OutputProposed(output)),
                    Some(SideEffect::SpawnAudio(output_id, text)),
                )
            },
            Intent::ReviseStatement { ref_id: _, correction } => {
                let mut text = "Correction: ".to_owned();
                text.append(correction.as_str());
                let output = Output {
                    id: output_id,
                    content: text.clone(),
                    status: OutputStatus::Draft,
                    proposed_at: tick,
                    committed_at: None,
                    parent_id: Some("root_task".to_owned()),
                };
                (
                    Some(StateDelta::OutputProposed(output)),
                    Some(SideEffect::SpawnAudio(output_id, text)),
                )
            },
            Intent::BeginResponse { confidence: _ } => {
                let text =
                    "Speaking from a quiet state; interrupt at any time to stop this message."
                    .to_owned();
                let output = Output {
                    id: output_id,
                    content: text.clone(),
                    status: OutputStatus::Draft,
                    proposed_at: tick,
                    committed_at: None,
                    parent_id: Some("root_task".to_owned()),
                };
                (
                    Some(StateDelta::OutputProposed(output)),
                    Some(SideEffect::SpawnAudio(output_id, text)),
                )
            },
        }
    }
}

} // verus!
