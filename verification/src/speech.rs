//! The speech planner: maps a dialogue act to a speech intent for the
//! out-of-process generator, and stays silent entirely in safe mode.

use vstd::prelude::*;
use crate::intent::DialogueAct;

verus! {

/// A seed for out-of-process speech generation.
#[derive(Debug, Clone, PartialEq, Eq)]
pub enum SpeechIntent {
    Clarification(String),
    Confirmation(String),
    Offer(String),
}

/// What `plan` yields: nothing in safe mode or for silent acts, otherwise
/// the act's content carried into the matching speech intent.
pub open spec fn spec_speech_planned(act: DialogueAct, safe_mode: bool, r: Option<
    SpeechIntent,
>) -> bool {
    if safe_mode {
        r is None
    } else {
        match act {
            DialogueAct::AskClarification(m) => r matches Some(SpeechIntent::Clarification(x))
                && x@ == m@,
            DialogueAct::Confirm(m) => r matches Some(SpeechIntent::Confirmation(x)) && x@ == m@,
            DialogueAct::Offer(m) => r matches Some(SpeechIntent::Offer(x)) && x@ == m@,
            DialogueAct::Wait => r is None,
            DialogueAct::StaySilent => r is None,
        }
    }
}

/// Maps dialogue acts to speech intents.
pub struct SpeechPlanner;

impl SpeechPlanner {
    pub fn new() -> (r: Self)
        ensures
            true,
    {
        SpeechPlanner
    }

    /// Plan speech for a dialogue act; safe mode suppresses everything.
    pub fn plan(&self, act: &DialogueAct, safe_mode: bool) -> (r: Option<SpeechIntent>)
        ensures
            spec_speech_planned(*act, safe_mode, r),
    {
        if safe_mode {
            return None;
        }
        match act {
            DialogueAct::AskClarification(reason) => Some(
                SpeechIntent::Clarification(reason.clone()),
            ),
            DialogueAct::Confirm(details) => Some(SpeechIntent::Confirmation(details.clone())),
            DialogueAct::Offer(details) => Some(SpeechIntent::Offer(details.clone())),
            DialogueAct::Wait => None,
            DialogueAct::StaySilent => None,
        }
    }
}

} // verus!
