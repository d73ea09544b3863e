//! The closed algebra of inputs, outputs and their identifiers.

use vstd::prelude::*;
use crate::score::Score;
use crate::tick::Tick;
use crate::memory::{MemoryConsentState, MemoryKey};
use crate::planner::{Intent, PlanningEpoch};

verus! {

/// Everything the driver can hand the reactor: external signals, or a
/// proposal arriving from the out-of-process planner.
#[derive(Debug, Clone)]
pub enum Event {
    Input(InputEvent),
    PlanProposed(PlanningEpoch, Intent),
}

/// Deterministic output identifier: the tick an output was proposed in, and
/// its ordinal within that tick.
#[derive(Debug, Clone, Copy, PartialEq, Eq, Hash, Structural)]
pub struct OutputId {
    pub tick: u64,
    pub ordinal: u16,
}

/// An edge reported by voice-activity detection.
#[derive(Debug, Clone, Copy, PartialEq, Eq, Structural)]
pub enum AudioSignal {
    SpeechStart,
    SpeechEnd,
}

/// A visual percept: a frame hash and its distance from the previous frame.
#[derive(Debug, Clone, Copy, PartialEq, Eq, Structural)]
pub enum VisualSignal {
    PerceptUpdate { hash: u64, distance: u32 },
}

/// Playback lifecycle reports from the driver.
#[derive(Debug, Clone, Copy, PartialEq, Eq, Structural)]
pub enum AudioStatus {
    PlaybackStarted,
    /// Finished or cancelled; the kernel does not distinguish.
    PlaybackEnded,
}

/// The content of an input event. The variant set is closed; anything else
/// the driver may see never reaches the kernel.
#[derive(Debug, Clone)]
pub enum InputContent {
    Text(String),
    Audio(AudioSignal),
    /// A chunk of captured audio. The driver hands over the raw sample words
    /// (one per sample, bit patterns the kernel never interprets) together
    /// with the chunk's measured energy as a fixed-point score.
    AudioChunk { frames: Vec<u32>, energy: Score },
    Visual(VisualSignal),
    /// A transcription result for a finalized segment.
    ProvisionalText { content: String, confidence: Score, source_id: u64 },
    /// An explicit request to transcribe a pending segment.
    TranscriptionRequest { segment_id: u64 },
    AudioStatus(AudioStatus),
    /// The user's answer to a memory-consent prompt.
    MemoryConsentResponse { key: MemoryKey, state: MemoryConsentState },
}

/// An input event: where it came from, and what it carries.
#[derive(Debug, Clone)]
pub struct InputEvent {
    pub source: String,
    pub content: InputContent,
}

impl InputEvent {
    /// A plain text input.
    pub fn text(source: &str, text: &str) -> (e: InputEvent)
        ensures
            e.source@ == source@,
            e.content matches InputContent::Text(t) && t@ == text@,
    {
        InputEvent { source: source.to_owned(), content: InputContent::Text(text.to_owned()) }
    }
}

/// The lifecycle stage of an output.
#[derive(Debug, Clone, Copy, PartialEq, Eq, Structural)]
pub enum OutputStatus {
    Draft,
    /// Retractable commitment.
    SoftCommit,
    /// Durable commitment.
    HardCommit,
    /// Absorbing: once canceled, an output never changes again.
    Canceled,
    /// Finalized.
    Committed,
}

/// An output owned by the kernel, from proposal to commit or cancellation.
#[derive(Debug)]
pub struct Output {
    pub id: OutputId,
    pub content: String,
    pub status: OutputStatus,
    pub proposed_at: Tick,
    pub committed_at: Option<Tick>,
    /// The task this output belongs to; cancellation cascades over it.
    pub parent_id: Option<String>,
}

impl Clone for Output {
    /// Clones preserve the value exactly.
    fn clone(&self) -> (r: Self)
        ensures
            r == *self,
    {
        let parent_id = match &self.parent_id {
            Some(p) => Some(p.clone()),
            None => None,
        };
        Output {
            id: self.id,
            content: self.content.clone(),
            status: self.status,
            proposed_at: self.proposed_at,
            committed_at: self.committed_at,
            parent_id,
        }
    }
}

} // verus!
