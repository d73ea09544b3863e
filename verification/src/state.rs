//! The canonical state and its reducer: the only way state mutates.
//!
//! Every applied delta bumps the version counter, which totally orders all
//! observable mutations and underpins stale-plan rejection.

use vstd::prelude::*;
use crate::event::{AudioSignal, InputContent, InputEvent, Output, OutputId, OutputStatus};
use crate::intent::{IntentState, intent_state_ok};
use crate::latent::{LatentSlot, LatentState, latents_ok, slot_ok};
use crate::lhim::LongHorizonIntent;
use crate::memory::{
    MemoryCandidate, MemoryConsent, MemoryConsentState, MemoryId, MemoryKey, MemoryRecord,
    memory_candidate_ok, memory_record_ok,
};
use crate::presence::{PresenceGraph, PresenceRequest, PresenceState, spec_transition};
use crate::score::{Score, UNIT, score_ok, spec_decay_step};
use crate::segment::{AudioSegment, SegmentStatus};
use crate::tick::Tick;

verus! {

/// Confidence floor below which a latent slot is pruned on tick decay.
pub const LATENT_PRUNE_FLOOR: u32 = 500;

/// Per-tick decay of turn pressure while the user is silent.
pub const PRESSURE_DECAY: u32 = 100;

/// Per-tick growth of turn pressure while the user speaks over active output.
pub const PRESSURE_RISE: u32 = 1000;

/// Per-tick decay of visual stability.
pub const STABILITY_DECAY: u32 = 100;

/// A speech burst strictly shorter than this many ticks counts as hesitation.
pub const HESITATION_TICKS: u64 = 10;

/// Confidence a latent summary entry must clear to be shown to the planner.
pub const SUMMARY_FLOOR: u32 = 5000;

/// The confidence penalty above which the mood reads cautious.
pub const CAUTIOUS_FLOOR: u32 = 3000;

/// The interruption sensitivity above which the mood reads sensitive.
pub const SENSITIVE_FLOOR: u32 = 5000;

/// The correction bias above which the mood reads reflective.
pub const REFLECTIVE_FLOOR: u32 = 3000;

/// Slow self-observation scores. Decay toward zero over time.
#[derive(Debug, Clone, Copy, PartialEq, Eq, Structural)]
pub struct MetaLatents {
    /// How sensitive the system is to being interrupted.
    pub interruption_sensitivity: Score,
    /// Penalty on confidence after recent failures; tightens crystallization.
    pub confidence_penalty: Score,
    /// Bias towards issuing corrections.
    pub correction_bias: Score,
}

pub open spec fn meta_ok(m: MetaLatents) -> bool {
    score_ok(m.interruption_sensitivity) && score_ok(m.confidence_penalty) && score_ok(
        m.correction_bias,
    )
}

impl Default for MetaLatents {
    fn default() -> (m: Self)
        ensures
            m.interruption_sensitivity == 0,
            m.confidence_penalty == 0,
            m.correction_bias == 0,
    {
        MetaLatents { interruption_sensitivity: 0, confidence_penalty: 0, correction_bias: 0 }
    }
}

/// What the kernel believes about the visual scene.
#[derive(Debug, Clone, Copy, PartialEq, Eq, Structural)]
pub struct VisualState {
    pub hash: u64,
    pub stability_score: Score,
}

impl Default for VisualState {
    fn default() -> (v: Self)
        ensures
            v.hash == 0,
            v.stability_score == 0,
    {
        VisualState { hash: 0, stability_score: 0 }
    }
}

/// The strict state delta vocabulary. Nothing mutates state except `reduce`
/// applying one of these.
#[derive(Debug, Clone)]
pub enum StateDelta {
    InputReceived(InputEvent),
    OutputProposed(Output),
    OutputCommitted(OutputId),
    OutputCanceled(OutputId),
    TaskCanceled(String),
    VisualStateUpdate { hash: u64, stability: Score },
    LatentUpdate { slot: LatentSlot },
    MetaLatentUpdate { delta: MetaLatents },
    LongHorizonIntentUpdate(LongHorizonIntent),
    PresenceTransition(PresenceRequest),
    PresenceUpdate(PresenceState),
    AudioSegmentCreated(AudioSegment),
    AudioFrameAppended { segment_id: u64, frames: Vec<u32> },
    AudioSegmentFinalized { segment_id: u64, end_tick: Tick },
    AudioSegmentTranscribing(u64),
    AudioSegmentTranscribed { segment_id: u64, text: String },
    AssessmentUpdate(IntentState),
    Tick(Tick),
    MemoryCandidateCreated(MemoryCandidate),
    MemoryCandidateReinforced(MemoryId, Tick),
    MemoryPromoted(MemoryRecord),
    MemoryDecayed { id: MemoryId, new_strength: Score },
    MemoryForgotten(MemoryId),
    MemoryCandidateRemoved(MemoryId),
    MemoryAccessed { id: MemoryId, time: Tick },
    MemoryConsentAsked(MemoryKey, Tick),
    MemoryConsentResolved { key: MemoryKey, state: MemoryConsentState, resolved_at: Tick },
}

/// A delta is admissible when every score it carries is a valid fraction.
pub open spec fn delta_ok(d: StateDelta) -> bool {
    match d {
        StateDelta::VisualStateUpdate { hash, stability } => score_ok(stability),
        StateDelta::LatentUpdate { slot } => slot_ok(slot),
        StateDelta::MetaLatentUpdate { delta } => meta_ok(delta),
        StateDelta::LongHorizonIntentUpdate(i) => score_ok(i.decay_score),
        StateDelta::AssessmentUpdate(s) => intent_state_ok(s),
        StateDelta::MemoryCandidateCreated(c) => memory_candidate_ok(c),
        StateDelta::MemoryPromoted(r) => memory_record_ok(r),
        StateDelta::MemoryDecayed { id, new_strength } => score_ok(new_strength),
        _ => true,
    }
}

/// The canonical state, exclusively owned by the reactor.
#[derive(Debug, Clone)]
pub struct SharedState {
    /// Outputs from proposal to commit or cancellation.
    pub active_outputs: Vec<Output>,
    /// Task identifiers whose outputs have been cascade-canceled.
    pub canceled_tasks: Vec<String>,
    /// Monotonic version for epoch validation; bumps on every applied delta.
    pub version: u64,
    pub last_tick: Tick,
    pub user_speaking: bool,
    pub turn_pressure: Score,
    pub last_speech_start: Option<Tick>,
    pub last_speech_end: Option<Tick>,
    pub hesitation_detected: bool,
    pub visual: VisualState,
    pub latents: LatentState,
    pub meta_latents: MetaLatents,
    pub active_intents: Vec<LongHorizonIntent>,
    pub presence: PresenceState,
    pub audio_segments: Vec<AudioSegment>,
    pub active_segment_id: Option<u64>,
    pub intent_state: IntentState,
    pub memory_candidates: Vec<MemoryCandidate>,
    pub long_term_memory: Vec<MemoryRecord>,
    pub memory_consent: Vec<MemoryConsent>,
}

/// Well-formedness: every score held anywhere in the state is a valid
/// fraction. Constructors establish this and `reduce` preserves it.
pub open spec fn state_ok(s: SharedState) -> bool {
    &&& score_ok(s.turn_pressure)
    &&& score_ok(s.visual.stability_score)
    &&& latents_ok(s.latents)
    &&& meta_ok(s.meta_latents)
    &&& intent_state_ok(s.intent_state)
    &&& forall|i: int|
        0 <= i < s.active_intents@.len() ==> score_ok(#[trigger] s.active_intents@[i].decay_score)
    &&& forall|a: int, b: int|
        0 <= a < b < s.active_intents@.len() ==> (#[trigger] s.active_intents@[a]).id != (
        #[trigger] s.active_intents@[b]).id
    &&& forall|i: int|
        0 <= i < s.memory_candidates@.len() ==> memory_candidate_ok(#[trigger] s.memory_candidates@[i])
    &&& forall|i: int|
        0 <= i < s.long_term_memory@.len() ==> memory_record_ok(#[trigger] s.long_term_memory@[i])
}

/// The version counter after one applied delta: one more, saturating at the
/// type's ceiling (which a run can never reach at one tick every 20 ms).
pub open spec fn spec_bump(v: u64) -> u64 {
    if v < u64::MAX {
        (v + 1) as u64
    } else {
        v
    }
}

/// An output with its status replaced.
pub open spec fn spec_with_status(o: Output, st: OutputStatus) -> Output {
    Output { status: st, ..o }
}

/// Cancel the output with this id. Pointwise; anything else is untouched.
pub open spec fn spec_cancel_by_id(outs: Seq<Output>, id: OutputId) -> Seq<Output> {
    outs.map(
        |i: int, o: Output|
            if o.id == id {
                spec_with_status(o, OutputStatus::Canceled)
            } else {
                o
            },
    )
}

/// Commit the output with this id — unless it is already canceled, which is
/// absorbing.
pub open spec fn spec_commit_by_id(outs: Seq<Output>, id: OutputId) -> Seq<Output> {
    outs.map(
        |i: int, o: Output|
            if o.id == id && !(o.status is Canceled) {
                spec_with_status(o, OutputStatus::Committed)
            } else {
                o
            },
    )
}

/// Whether an output belongs to the given task.
pub open spec fn spec_belongs_to(o: Output, task: Seq<char>) -> bool {
    match o.parent_id {
        Some(p) => p@ == task,
        None => false,
    }
}

/// Cancel every output whose parent is the given task.
pub open spec fn spec_cancel_by_parent(outs: Seq<Output>, task: Seq<char>) -> Seq<Output> {
    outs.map(
        |i: int, o: Output|
            if spec_belongs_to(o, task) {
                spec_with_status(o, OutputStatus::Canceled)
            } else {
                o
            },
    )
}

/// Whether some output already carries this id.
pub open spec fn spec_has_output(outs: Seq<Output>, id: OutputId) -> bool {
    exists|i: int| 0 <= i < outs.len() && outs[i].id == id
}

/// One latent slot after a tick of decay.
pub open spec fn spec_decay_slot(s: LatentSlot) -> LatentSlot {
    LatentSlot {
        confidence: spec_decay_step(s.confidence as nat, (UNIT - s.decay_rate) as nat) as u32,
        ..s
    }
}

/// All slots after a tick: each decays by its own rate, and slots at or below
/// the pruning floor are dropped.
pub open spec fn spec_decay_slots(sl: Seq<LatentSlot>) -> Seq<LatentSlot>
    decreases sl.len(),
{
    if sl.len() == 0 {
        Seq::empty()
    } else {
        let rest = spec_decay_slots(sl.drop_last());
        let d = spec_decay_slot(sl.last());
        if d.confidence > LATENT_PRUNE_FLOOR {
            rest.push(d)
        } else {
            rest
        }
    }
}

/// Turn pressure after a tick: it decays while the user is silent, and rises
/// while the user speaks over retained output.
pub open spec fn spec_pressure_after(s: SharedState) -> Score {
    if !s.user_speaking {
        if s.turn_pressure >= PRESSURE_DECAY {
            (s.turn_pressure - PRESSURE_DECAY) as u32
        } else {
            0
        }
    } else if s.active_outputs@.len() > 0 {
        if s.turn_pressure + PRESSURE_RISE <= UNIT {
            (s.turn_pressure + PRESSURE_RISE) as u32
        } else {
            UNIT
        }
    } else {
        s.turn_pressure
    }
}

/// Visual stability after a tick of decay.
pub open spec fn spec_stability_after(s: SharedState) -> Score {
    if s.visual.stability_score >= STABILITY_DECAY {
        (s.visual.stability_score - STABILITY_DECAY) as u32
    } else {
        0
    }
}

/// Whether a speech burst ending now counts as hesitation: it started, and
/// lasted more than zero but fewer than `HESITATION_TICKS` ticks.
pub open spec fn spec_hesitation_now(s: SharedState) -> bool {
    match s.last_speech_start {
        Some(start) => s.last_tick.frame >= start.frame && 0 < s.last_tick.frame - start.frame
            < HESITATION_TICKS,
        None => false,
    }
}

/// The stores behave as maps keyed by id, held as vectors: an update hits the
/// first entry whose id matches, and leaves everything else untouched.
/// `m` selects the entry, `rel` relates its old and new value.
pub open spec fn first_match_rel<T>(
    pre: Seq<T>,
    post: Seq<T>,
    m: spec_fn(T) -> bool,
    rel: spec_fn(T, T) -> bool,
) -> bool {
    if exists|i: int| 0 <= i < pre.len() && m(pre[i]) {
        exists|i: int|
            {
                &&& 0 <= i < pre.len()
                &&& m(pre[i])
                &&& forall|j: int| 0 <= j < i ==> !m(pre[j])
                &&& post.len() == pre.len()
                &&& rel(pre[i], post[i])
                &&& forall|j: int| 0 <= j < post.len() && j != i ==> post[j] == pre[j]
            }
    } else {
        post == pre
    }
}

/// Replace the first intent carrying this id; push when none does.
pub open spec fn spec_upserted(
    pre: Seq<LongHorizonIntent>,
    intent: LongHorizonIntent,
    post: Seq<LongHorizonIntent>,
) -> bool {
    if exists|i: int| 0 <= i < pre.len() && pre[i].id == intent.id {
        first_match_rel(pre, post, |x: LongHorizonIntent| x.id == intent.id, |a, b| b == intent)
    } else {
        post == pre.push(intent)
    }
}

/// Whether some segment carries this id.
pub open spec fn spec_has_segment(segs: Seq<AudioSegment>, id: u64) -> bool {
    exists|i: int| 0 <= i < segs.len() && segs[i].id == id
}

/// The segments after frames were appended to the first one with this id:
/// its buffer grows by exactly the new frames, nothing else about it or any
/// other segment changes.
pub open spec fn spec_frames_appended(
    pre: Seq<AudioSegment>,
    post: Seq<AudioSegment>,
    id: u64,
    frames: Seq<u32>,
) -> bool {
    first_match_rel(
        pre,
        post,
        |s: AudioSegment| s.id == id,
        |a: AudioSegment, b: AudioSegment|
            {
                &&& b.id == a.id
                &&& b.frames@ == a.frames@ + frames
                &&& b.start_tick == a.start_tick
                &&& b.end_tick == a.end_tick
                &&& b.status == a.status
                &&& b.transcription == a.transcription
            },
    )
}

/// Finalize the segment with this id: mark it pending and stamp its end.
pub open spec fn spec_finalize_segment(
    segs: Seq<AudioSegment>,
    id: u64,
    end_tick: Tick,
) -> Seq<AudioSegment> {
    segs.map(
        |i: int, s: AudioSegment|
            if s.id == id {
                AudioSegment { end_tick: Some(end_tick), status: SegmentStatus::Pending, ..s }
            } else {
                s
            },
    )
}

/// Mark the segment with this id as transcribing.
pub open spec fn spec_segment_transcribing(segs: Seq<AudioSegment>, id: u64) -> Seq<AudioSegment> {
    segs.map(
        |i: int, s: AudioSegment|
            if s.id == id {
                AudioSegment { status: SegmentStatus::Transcribing, ..s }
            } else {
                s
            },
    )
}

/// Attach text to the segment with this id and mark it transcribed.
pub open spec fn spec_segment_transcribed(
    segs: Seq<AudioSegment>,
    id: u64,
    text: String,
) -> Seq<AudioSegment> {
    segs.map(
        |i: int, s: AudioSegment|
            if s.id == id {
                AudioSegment {
                    status: SegmentStatus::Transcribed,
                    transcription: Some(text),
                    ..s
                }
            } else {
                s
            },
    )
}

/// Whether some candidate carries this id.
pub open spec fn spec_has_candidate(cs: Seq<MemoryCandidate>, id: MemoryId) -> bool {
    exists|i: int| 0 <= i < cs.len() && cs[i].id == id
}

/// Reinforce the candidate with this id: count up once (saturating), stamp
/// the reinforcement time.
pub open spec fn spec_reinforce_candidate(
    cs: Seq<MemoryCandidate>,
    id: MemoryId,
    t: Tick,
) -> Seq<MemoryCandidate> {
    cs.map(
        |i: int, c: MemoryCandidate|
            if c.id == id {
                MemoryCandidate {
                    reinforcement_count: if c.reinforcement_count < u32::MAX {
                        (c.reinforcement_count + 1) as u32
                    } else {
                        c.reinforcement_count
                    },
                    last_reinforced_at: t,
                    ..c
                }
            } else {
                c
            },
    )
}

/// Drop every candidate with this id, keeping order.
pub open spec fn spec_remove_candidate(cs: Seq<MemoryCandidate>, id: MemoryId) -> Seq<
    MemoryCandidate,
>
    decreases cs.len(),
{
    if cs.len() == 0 {
        Seq::empty()
    } else {
        let rest = spec_remove_candidate(cs.drop_last(), id);
        if cs.last().id != id {
            rest.push(cs.last())
        } else {
            rest
        }
    }
}

/// Whether some record carries this id.
pub open spec fn spec_has_record(rs: Seq<MemoryRecord>, id: MemoryId) -> bool {
    exists|i: int| 0 <= i < rs.len() && rs[i].id == id
}

/// Drop every record with this id, keeping order.
pub open spec fn spec_remove_record(rs: Seq<MemoryRecord>, id: MemoryId) -> Seq<MemoryRecord>
    decreases rs.len(),
{
    if rs.len() == 0 {
        Seq::empty()
    } else {
        let rest = spec_remove_record(rs.drop_last(), id);
        if rs.last().id != id {
            rest.push(rs.last())
        } else {
            rest
        }
    }
}

/// Set the strength of the record with this id.
pub open spec fn spec_record_decayed(
    rs: Seq<MemoryRecord>,
    id: MemoryId,
    strength: Score,
) -> Seq<MemoryRecord> {
    rs.map(
        |i: int, r: MemoryRecord|
            if r.id == id {
                MemoryRecord { strength, ..r }
            } else {
                r
            },
    )
}

/// Stamp the access time of the record with this id.
pub open spec fn spec_record_accessed(rs: Seq<MemoryRecord>, id: MemoryId, t: Tick) -> Seq<
    MemoryRecord,
> {
    rs.map(
        |i: int, r: MemoryRecord|
            if r.id == id {
                MemoryRecord { last_accessed_at: t, ..r }
            } else {
                r
            },
    )
}

/// The index of the consent entry for this key, if any.
pub open spec fn spec_consent_index(cs: Seq<MemoryConsent>, key: MemoryKey) -> Option<int> {
    if exists|i: int| 0 <= i < cs.len() && cs[i].memory_key == key {
        Some(choose|i: int| 0 <= i < cs.len() && cs[i].memory_key == key)
    } else {
        None
    }
}

/// Whether an existing consent answer is final: once granted or declined, it
/// persists for the session and re-asking does not reset it.
pub open spec fn spec_consent_final(c: MemoryConsent) -> bool {
    c.state == MemoryConsentState::Granted || c.state == MemoryConsentState::Declined
}

/// Whether the consent list holds a final answer for this key.
pub open spec fn spec_has_final_consent(cs: Seq<MemoryConsent>, key: MemoryKey) -> bool {
    exists|i: int| 0 <= i < cs.len() && cs[i].memory_key == key && spec_consent_final(cs[i])
}

/// Resolve the consent entry for this key.
pub open spec fn spec_resolve_consent(
    cs: Seq<MemoryConsent>,
    key: MemoryKey,
    state: MemoryConsentState,
    at: Tick,
) -> Seq<MemoryConsent> {
    cs.map(
        |i: int, c: MemoryConsent|
            if c.memory_key == key {
                MemoryConsent { state, resolved_at: Some(at), ..c }
            } else {
                c
            },
    )
}

/// Removing candidates keeps every survivor a member of the original list.
proof fn lemma_remove_candidate_ok(cs: Seq<MemoryCandidate>, id: MemoryId)
    requires
        forall|i: int| 0 <= i < cs.len() ==> memory_candidate_ok(#[trigger] cs[i]),
    ensures
        forall|i: int|
            0 <= i < spec_remove_candidate(cs, id).len() ==> memory_candidate_ok(
                #[trigger] spec_remove_candidate(cs, id)[i],
            ),
    decreases cs.len(),
{
    if cs.len() > 0 {
        assert(forall|i: int|
            0 <= i < cs.drop_last().len() ==> memory_candidate_ok(#[trigger] cs.drop_last()[i]));
        lemma_remove_candidate_ok(cs.drop_last(), id);
        let r = spec_remove_candidate(cs, id);
        let rest = spec_remove_candidate(cs.drop_last(), id);
        assert forall|i: int| 0 <= i < r.len() implies memory_candidate_ok(#[trigger] r[i]) by {
            if cs.last().id != id {
                assert(r == rest.push(cs.last()));
                if i < rest.len() {
                    assert(memory_candidate_ok(rest[i]));
                } else {
                    assert(r[i] == cs.last());
                }
            } else {
                assert(r == rest);
            }
        };
    }
}

/// Removing records keeps every survivor a member of the original list.
proof fn lemma_remove_record_ok(rs: Seq<MemoryRecord>, id: MemoryId)
    requires
        forall|i: int| 0 <= i < rs.len() ==> memory_record_ok(#[trigger] rs[i]),
    ensures
        forall|i: int|
            0 <= i < spec_remove_record(rs, id).len() ==> memory_record_ok(
                #[trigger] spec_remove_record(rs, id)[i],
            ),
    decreases rs.len(),
{
    if rs.len() > 0 {
        assert(forall|i: int|
            0 <= i < rs.drop_last().len() ==> memory_record_ok(#[trigger] rs.drop_last()[i]));
        lemma_remove_record_ok(rs.drop_last(), id);
        let r = spec_remove_record(rs, id);
        let rest = spec_remove_record(rs.drop_last(), id);
        assert forall|i: int| 0 <= i < r.len() implies memory_record_ok(#[trigger] r[i]) by {
            if rs.last().id != id {
                assert(r == rest.push(rs.last()));
                if i < rest.len() {
                    assert(memory_record_ok(rest[i]));
                } else {
                    assert(r[i] == rs.last());
                }
            } else {
                assert(r == rest);
            }
        };
    }
}

/// Whether the consent list has an entry for this key.
pub open spec fn spec_has_consent(cs: Seq<MemoryConsent>, key: MemoryKey) -> bool {
    exists|i: int| 0 <= i < cs.len() && cs[i].memory_key == key
}

/// A consent entry as first created: unknown, unresolved, stamped with the
/// tick it was asked at.
pub open spec fn spec_fresh_consent(key: MemoryKey, t: Tick) -> MemoryConsent {
    MemoryConsent { memory_key: key, state: MemoryConsentState::Unknown, asked_at: t, resolved_at: None }
}

/// Reset every consent entry for this key to a fresh ask.
pub open spec fn spec_ask_consent(cs: Seq<MemoryConsent>, key: MemoryKey, t: Tick) -> Seq<
    MemoryConsent,
> {
    cs.map(
        |i: int, c: MemoryConsent|
            if c.memory_key == key {
                spec_fresh_consent(key, t)
            } else {
                c
            },
    )
}

/// The planner-visible summary of the latent slots: channel and confidence
/// of every slot above the summary floor, in order.
pub open spec fn spec_summary_of(slots: Seq<LatentSlot>) -> Seq<crate::planner::LatentSummary>
    decreases slots.len(),
{
    if slots.len() == 0 {
        Seq::empty()
    } else {
        let rest = spec_summary_of(slots.drop_last());
        if slots.last().confidence > SUMMARY_FLOOR {
            rest.push(
                crate::planner::LatentSummary {
                    modality: slots.last().modality,
                    confidence: slots.last().confidence,
                },
            )
        } else {
            rest
        }
    }
}

/// The mood labels the meta-latent thresholds dictate, in fixed order.
pub open spec fn spec_mood_of(m: MetaLatents) -> Seq<crate::planner::MoodLabel> {
    (if m.confidence_penalty > CAUTIOUS_FLOOR {
        seq![crate::planner::MoodLabel::Cautious]
    } else {
        Seq::empty()
    }) + (if m.interruption_sensitivity > SENSITIVE_FLOOR {
        seq![crate::planner::MoodLabel::Sensitive]
    } else {
        Seq::empty()
    }) + (if m.correction_bias > REFLECTIVE_FLOOR {
        seq![crate::planner::MoodLabel::Reflective]
    } else {
        Seq::empty()
    })
}

/// Whether that task id is already recorded as canceled.
pub open spec fn spec_has_task(ts: Seq<String>, task: Seq<char>) -> bool {
    exists|i: int| 0 <= i < ts.len() && ts[i]@ == task
}

/// The full effect of one delta: exactly which fields change and how, with
/// everything else pinned unchanged. This is the reducer's contract.
pub open spec fn spec_reduced(pre: SharedState, d: StateDelta, post: SharedState) -> bool {
    &&& post.version == spec_bump(pre.version)
    &&& match d {
        StateDelta::Tick(t) => {
            &&& post == SharedState {
                version: post.version,
                last_tick: t,
                turn_pressure: spec_pressure_after(pre),
                visual: VisualState { hash: pre.visual.hash, stability_score: spec_stability_after(pre) },
                latents: post.latents,
                ..pre
            }
            &&& post.latents.slots@ == spec_decay_slots(pre.latents.slots@)
        },
        StateDelta::InputReceived(e) => match e.content {
            InputContent::Audio(AudioSignal::SpeechStart) => post == SharedState {
                version: post.version,
                user_speaking: true,
                last_speech_start: Some(pre.last_tick),
                hesitation_detected: false,
                ..pre
            },
            InputContent::Audio(AudioSignal::SpeechEnd) => post == SharedState {
                version: post.version,
                user_speaking: false,
                last_speech_end: Some(pre.last_tick),
                hesitation_detected: pre.hesitation_detected || spec_hesitation_now(pre),
                ..pre
            },
            _ => post == SharedState { version: post.version, ..pre },
        },
        StateDelta::OutputProposed(o) => if spec_has_output(pre.active_outputs@, o.id) {
            post == SharedState { version: post.version, ..pre }
        } else {
            post == SharedState { version: post.version, active_outputs: post.active_outputs, ..pre }
                && post.active_outputs@ == pre.active_outputs@.push(o)
        },
        StateDelta::OutputCommitted(id) => {
            &&& post == SharedState { version: post.version, active_outputs: post.active_outputs, ..pre }
            &&& post.active_outputs@ == spec_commit_by_id(pre.active_outputs@, id)
        },
        StateDelta::OutputCanceled(id) => {
            &&& post == SharedState { version: post.version, active_outputs: post.active_outputs, ..pre }
            &&& post.active_outputs@ == spec_cancel_by_id(pre.active_outputs@, id)
        },
        StateDelta::TaskCanceled(task) => {
            &&& post == SharedState {
                version: post.version,
                active_outputs: post.active_outputs,
                canceled_tasks: post.canceled_tasks,
                ..pre
            }
            &&& post.active_outputs@ == spec_cancel_by_parent(pre.active_outputs@, task@)
            &&& post.canceled_tasks@ == if spec_has_task(pre.canceled_tasks@, task@) {
                pre.canceled_tasks@
            } else {
                pre.canceled_tasks@.push(task)
            }
        },
        StateDelta::VisualStateUpdate { hash, stability } => post == SharedState {
            version: post.version,
            visual: VisualState { hash, stability_score: stability },
            ..pre
        },
        StateDelta::LatentUpdate { slot } => {
            &&& post == SharedState { version: post.version, latents: post.latents, ..pre }
            &&& post.latents.slots@ == pre.latents.slots@.push(slot)
        },
        StateDelta::MetaLatentUpdate { delta } => post == SharedState {
            version: post.version,
            meta_latents: delta,
            ..pre
        },
        StateDelta::LongHorizonIntentUpdate(intent) => {
            &&& post == SharedState { version: post.version, active_intents: post.active_intents, ..pre }
            &&& spec_upserted(pre.active_intents@, intent, post.active_intents@)
        },
        StateDelta::PresenceTransition(req) => post == SharedState {
            version: post.version,
            presence: match spec_transition(pre.presence, req) {
                Some(next) => next,
                None => pre.presence,
            },
            ..pre
        },
        StateDelta::PresenceUpdate(next) => post == SharedState {
            version: post.version,
            presence: next,
            ..pre
        },
        StateDelta::AudioSegmentCreated(seg) => if spec_has_segment(pre.audio_segments@, seg.id) {
            post == SharedState { version: post.version, ..pre }
        } else {
            &&& post == SharedState {
                version: post.version,
                audio_segments: post.audio_segments,
                active_segment_id: Some(seg.id),
                ..pre
            }
            &&& post.audio_segments@ == pre.audio_segments@.push(seg)
        },
        StateDelta::AudioFrameAppended { segment_id, frames } => {
            &&& post == SharedState { version: post.version, audio_segments: post.audio_segments, ..pre }
            &&& spec_frames_appended(pre.audio_segments@, post.audio_segments@, segment_id, frames@)
        },
        StateDelta::AudioSegmentFinalized { segment_id, end_tick } => {
            &&& post == SharedState {
                version: post.version,
                audio_segments: post.audio_segments,
                active_segment_id: if pre.active_segment_id == Some(segment_id) {
                    None
                } else {
                    pre.active_segment_id
                },
                ..pre
            }
            &&& post.audio_segments@ == spec_finalize_segment(pre.audio_segments@, segment_id, end_tick)
        },
        StateDelta::AudioSegmentTranscribing(segment_id) => {
            &&& post == SharedState { version: post.version, audio_segments: post.audio_segments, ..pre }
            &&& post.audio_segments@ == spec_segment_transcribing(pre.audio_segments@, segment_id)
        },
        StateDelta::AudioSegmentTranscribed { segment_id, text } => {
            &&& post == SharedState { version: post.version, audio_segments: post.audio_segments, ..pre }
            &&& post.audio_segments@ == spec_segment_transcribed(pre.audio_segments@, segment_id, text)
        },
        StateDelta::AssessmentUpdate(s) => post == SharedState {
            version: post.version,
            intent_state: s,
            ..pre
        },
        StateDelta::MemoryCandidateCreated(c) => if spec_has_candidate(pre.memory_candidates@, c.id) {
            post == SharedState { version: post.version, ..pre }
        } else {
            &&& post == SharedState { version: post.version, memory_candidates: post.memory_candidates, ..pre }
            &&& post.memory_candidates@ == pre.memory_candidates@.push(c)
        },
        StateDelta::MemoryCandidateReinforced(id, t) => {
            &&& post == SharedState { version: post.version, memory_candidates: post.memory_candidates, ..pre }
            &&& post.memory_candidates@ == spec_reinforce_candidate(pre.memory_candidates@, id, t)
        },
        StateDelta::MemoryPromoted(r) => if spec_has_record(pre.long_term_memory@, r.id) {
            post == SharedState { version: post.version, ..pre }
        } else {
            &&& post == SharedState { version: post.version, long_term_memory: post.long_term_memory, ..pre }
            &&& post.long_term_memory@ == pre.long_term_memory@.push(r)
        },
        StateDelta::MemoryDecayed { id, new_strength } => {
            &&& post == SharedState { version: post.version, long_term_memory: post.long_term_memory, ..pre }
            &&& post.long_term_memory@ == spec_record_decayed(pre.long_term_memory@, id, new_strength)
        },
        StateDelta::MemoryForgotten(id) => {
            &&& post == SharedState {
                version: post.version,
                memory_candidates: post.memory_candidates,
                long_term_memory: post.long_term_memory,
                ..pre
            }
            &&& post.memory_candidates@ == spec_remove_candidate(pre.memory_candidates@, id)
            &&& post.long_term_memory@ == spec_remove_record(pre.long_term_memory@, id)
        },
        StateDelta::MemoryCandidateRemoved(id) => {
            &&& post == SharedState { version: post.version, memory_candidates: post.memory_candidates, ..pre }
            &&& post.memory_candidates@ == spec_remove_candidate(pre.memory_candidates@, id)
        },
        StateDelta::MemoryAccessed { id, time } => {
            &&& post == SharedState { version: post.version, long_term_memory: post.long_term_memory, ..pre }
            &&& post.long_term_memory@ == spec_record_accessed(pre.long_term_memory@, id, time)
        },
        StateDelta::MemoryConsentAsked(key, t) => if spec_has_final_consent(pre.memory_consent@, key) {
            post == SharedState { version: post.version, ..pre }
        } else {
            &&& post == SharedState { version: post.version, memory_consent: post.memory_consent, ..pre }
            &&& post.memory_consent@ == if spec_has_consent(pre.memory_consent@, key) {
                spec_ask_consent(pre.memory_consent@, key, t)
            } else {
                pre.memory_consent@.push(spec_fresh_consent(key, t))
            }
        },
        StateDelta::MemoryConsentResolved { key, state, resolved_at } => {
            &&& post == SharedState { version: post.version, memory_consent: post.memory_consent, ..pre }
            &&& post.memory_consent@ == if spec_has_consent(pre.memory_consent@, key) {
                spec_resolve_consent(pre.memory_consent@, key, state, resolved_at)
            } else {
                pre.memory_consent@.push(
                    MemoryConsent {
                        memory_key: key,
                        state,
                        asked_at: resolved_at,
                        resolved_at: Some(resolved_at),
                    },
                )
            }
        },
    }
}

/// Cancel every output with this id, in place.
fn outputs_cancel_by_id(v: &mut Vec<Output>, id: OutputId)
    ensures
        final(v)@ == spec_cancel_by_id(old(v)@, id),
{
    let n: usize = v.len();
    let mut i: usize = 0;
    while i < n
        invariant
            i <= n,
            n == v@.len(),
            v@.len() == old(v)@.len(),
            forall|j: int|
                0 <= j < i ==> v@[j] == (if old(v)@[j].id == id {
                    spec_with_status(old(v)@[j], OutputStatus::Canceled)
                } else {
                    old(v)@[j]
                }),
            forall|j: int| i <= j < n ==> v@[j] == old(v)@[j],
        decreases n - i,
    {
        if v[i].id == id {
            let e = &mut v[i];
            e.status = OutputStatus::Canceled;
        }
        i = i + 1;
    }
    proof {
        assert(v@ =~= spec_cancel_by_id(old(v)@, id));
    }
}

/// Commit every output with this id, unless it is canceled, in place.
fn outputs_commit_by_id(v: &mut Vec<Output>, id: OutputId)
    ensures
        final(v)@ == spec_commit_by_id(old(v)@, id),
{
    let n: usize = v.len();
    let mut i: usize = 0;
    while i < n
        invariant
            i <= n,
            n == v@.len(),
            v@.len() == old(v)@.len(),
            forall|j: int|
                0 <= j < i ==> v@[j] == (if old(v)@[j].id == id && !(old(v)@[j].status
                    is Canceled) {
                    spec_with_status(old(v)@[j], OutputStatus::Committed)
                } else {
                    old(v)@[j]
                }),
            forall|j: int| i <= j < n ==> v@[j] == old(v)@[j],
        decreases n - i,
    {
        if v[i].id == id && !matches!(v[i].status, OutputStatus::Canceled) {
            let e = &mut v[i];
            e.status = OutputStatus::Committed;
        }
        i = i + 1;
    }
    proof {
        assert(v@ =~= spec_commit_by_id(old(v)@, id));
    }
}

/// Cancel every output belonging to the given task, in place.
fn outputs_cancel_by_parent(v: &mut Vec<Output>, task: &String)
    ensures
        final(v)@ == spec_cancel_by_parent(old(v)@, task@),
{
    let n: usize = v.len();
    let mut i: usize = 0;
    while i < n
        invariant
            i <= n,
            n == v@.len(),
            v@.len() == old(v)@.len(),
            forall|j: int|
                0 <= j < i ==> v@[j] == (if spec_belongs_to(old(v)@[j], task@) {
                    spec_with_status(old(v)@[j], OutputStatus::Canceled)
                } else {
                    old(v)@[j]
                }),
            forall|j: int| i <= j < n ==> v@[j] == old(v)@[j],
        decreases n - i,
    {
        let belongs = match &v[i].parent_id {
            Some(p) => *p == *task,
            None => false,
        };
        if belongs {
            let e = &mut v[i];
            e.status = OutputStatus::Canceled;
        }
        i = i + 1;
    }
    proof {
        assert(v@ =~= spec_cancel_by_parent(old(v)@, task@));
    }
}

/// Record a canceled task id, once.
fn tasks_insert(v: &mut Vec<String>, task: String)
    ensures
        final(v)@ == if spec_has_task(old(v)@, task@) {
            old(v)@
        } else {
            old(v)@.push(task)
        },
{
    let n: usize = v.len();
    let mut i: usize = 0;
    while i < n
        invariant
            i <= n,
            n == v@.len(),
            v@ == old(v)@,
            forall|j: int| 0 <= j < i ==> v@[j]@ != task@,
        decreases n - i,
    {
        if v[i] == task {
            return ;
        }
        i = i + 1;
    }
    v.push(task);
}

/// Apply one tick of decay to every slot and prune the dead ones.
fn slots_tick(v: &mut Vec<LatentSlot>)
    requires
        forall|i: int| 0 <= i < old(v)@.len() ==> slot_ok(#[trigger] old(v)@[i]),
    ensures
        final(v)@ == spec_decay_slots(old(v)@),
        forall|i: int| 0 <= i < final(v)@.len() ==> slot_ok(#[trigger] final(v)@[i]),
{
    let mut src: Vec<LatentSlot> = Vec::new();
    core::mem::swap(&mut src, v);
    let ghost orig = src@;
    let n: usize = src.len();
    let mut i: usize = 0;
    while i < n
        invariant
            i <= n,
            n == orig.len(),
            src@ == orig.subrange(i as int, n as int),
            v@ == spec_decay_slots(orig.subrange(0, i as int)),
            forall|j: int| 0 <= j < orig.len() ==> slot_ok(#[trigger] orig[j]),
            forall|j: int| 0 <= j < v@.len() ==> slot_ok(#[trigger] v@[j]),
        decreases n - i,
    {
        let mut s = src.remove(0);
        let nc = crate::score::decay_step(s.confidence, UNIT - s.decay_rate);
        s.confidence = nc;
        proof {
            assert(orig.subrange(0, i + 1).drop_last() =~= orig.subrange(0, i as int));
            assert(orig.subrange(0, i + 1).last() == orig[i as int]);
            assert(s == spec_decay_slot(orig[i as int]));
        }
        if nc > LATENT_PRUNE_FLOOR {
            v.push(s);
        }
        proof {
            assert(src@ =~= orig.subrange(i + 1, n as int));
        }
        i = i + 1;
    }
    proof {
        assert(orig.subrange(0, n as int) =~= orig);
    }
}

/// Replace the first intent with this id, or push the new one.
fn intents_upsert(v: &mut Vec<LongHorizonIntent>, intent: LongHorizonIntent)
    ensures
        spec_upserted(old(v)@, intent, final(v)@),
{
    let n: usize = v.len();
    let mut i: usize = 0;
    while i < n
        invariant
            i <= n,
            n == v@.len(),
            v@ == old(v)@,
            forall|j: int| 0 <= j < i ==> v@[j].id != intent.id,
        decreases n - i,
    {
        if v[i].id == intent.id {
            v.set(i, intent);
            return ;
        }
        i = i + 1;
    }
    v.push(intent);
}

/// The index of the first segment with this id.
fn segments_find(v: &Vec<AudioSegment>, id: u64) -> (r: Option<usize>)
    ensures
        match r {
            Some(i) => i < v@.len() && v@[i as int].id == id && forall|j: int|
                0 <= j < i ==> v@[j].id != id,
            None => !spec_has_segment(v@, id),
        },
{
    let n: usize = v.len();
    let mut i: usize = 0;
    while i < n
        invariant
            i <= n,
            n == v@.len(),
            forall|j: int| 0 <= j < i ==> v@[j].id != id,
        decreases n - i,
    {
        if v[i].id == id {
            return Some(i);
        }
        i = i + 1;
    }
    None
}

/// Append frames to the first segment with this id.
fn segments_append_frames(v: &mut Vec<AudioSegment>, id: u64, frames: Vec<u32>)
    ensures
        spec_frames_appended(old(v)@, final(v)@, id, frames@),
{
    let found = segments_find(v, id);
    match found {
        Some(i) => {
            let mut fr = frames;
            let e = &mut v[i];
            e.frames.append(&mut fr);
        },
        None => {},
    }
}

/// Finalize every segment with this id, in place.
fn segments_finalize(v: &mut Vec<AudioSegment>, id: u64, end_tick: Tick)
    ensures
        final(v)@ == spec_finalize_segment(old(v)@, id, end_tick),
{
    let n: usize = v.len();
    let mut i: usize = 0;
    while i < n
        invariant
            i <= n,
            n == v@.len(),
            v@.len() == old(v)@.len(),
            forall|j: int|
                0 <= j < i ==> v@[j] == (if old(v)@[j].id == id {
                    AudioSegment {
                        end_tick: Some(end_tick),
                        status: SegmentStatus::Pending,
                        ..old(v)@[j]
                    }
                } else {
                    old(v)@[j]
                }),
            forall|j: int| i <= j < n ==> v@[j] == old(v)@[j],
        decreases n - i,
    {
        if v[i].id == id {
            let e = &mut v[i];
            e.end_tick = Some(end_tick);
            e.status = SegmentStatus::Pending;
        }
        i = i + 1;
    }
    proof {
        assert(v@ =~= spec_finalize_segment(old(v)@, id, end_tick));
    }
}

/// Mark every segment with this id as transcribing, in place.
fn segments_transcribing(v: &mut Vec<AudioSegment>, id: u64)
    ensures
        final(v)@ == spec_segment_transcribing(old(v)@, id),
{
    let n: usize = v.len();
    let mut i: usize = 0;
    while i < n
        invariant
            i <= n,
            n == v@.len(),
            v@.len() == old(v)@.len(),
            forall|j: int|
                0 <= j < i ==> v@[j] == (if old(v)@[j].id == id {
                    AudioSegment { status: SegmentStatus::Transcribing, ..old(v)@[j] }
                } else {
                    old(v)@[j]
                }),
            forall|j: int| i <= j < n ==> v@[j] == old(v)@[j],
        decreases n - i,
    {
        if v[i].id == id {
            let e = &mut v[i];
            e.status = SegmentStatus::Transcribing;
        }
        i = i + 1;
    }
    proof {
        assert(v@ =~= spec_segment_transcribing(old(v)@, id));
    }
}

/// Attach text to every segment with this id, in place.
fn segments_transcribed(v: &mut Vec<AudioSegment>, id: u64, text: String)
    ensures
        final(v)@ == spec_segment_transcribed(old(v)@, id, text),
{
    let n: usize = v.len();
    let mut i: usize = 0;
    while i < n
        invariant
            i <= n,
            n == v@.len(),
            v@.len() == old(v)@.len(),
            forall|j: int|
                0 <= j < i ==> v@[j] == (if old(v)@[j].id == id {
                    AudioSegment {
                        status: SegmentStatus::Transcribed,
                        transcription: Some(text),
                        ..old(v)@[j]
                    }
                } else {
                    old(v)@[j]
                }),
            forall|j: int| i <= j < n ==> v@[j] == old(v)@[j],
        decreases n - i,
    {
        if v[i].id == id {
            let t = text.clone();
            let e = &mut v[i];
            e.status = SegmentStatus::Transcribed;
            e.transcription = Some(t);
        }
        i = i + 1;
    }
    proof {
        assert(v@ =~= spec_segment_transcribed(old(v)@, id, text));
    }
}

/// Whether some candidate carries this id.
fn candidates_has(v: &Vec<MemoryCandidate>, id: MemoryId) -> (r: bool)
    ensures
        r == spec_has_candidate(v@, id),
{
    let n: usize = v.len();
    let mut i: usize = 0;
    while i < n
        invariant
            i <= n,
            n == v@.len(),
            forall|j: int| 0 <= j < i ==> v@[j].id != id,
        decreases n - i,
    {
        if v[i].id == id {
            return true;
        }
        i = i + 1;
    }
    false
}

/// Reinforce every candidate with this id, in place.
fn candidates_reinforce(v: &mut Vec<MemoryCandidate>, id: MemoryId, t: Tick)
    ensures
        final(v)@ == spec_reinforce_candidate(old(v)@, id, t),
{
    let n: usize = v.len();
    let mut i: usize = 0;
    while i < n
        invariant
            i <= n,
            n == v@.len(),
            v@.len() == old(v)@.len(),
            forall|j: int|
                0 <= j < i ==> v@[j] == (if old(v)@[j].id == id {
                    MemoryCandidate {
                        reinforcement_count: if old(v)@[j].reinforcement_count < u32::MAX {
                            (old(v)@[j].reinforcement_count + 1) as u32
                        } else {
                            old(v)@[j].reinforcement_count
                        },
                        last_reinforced_at: t,
                        ..old(v)@[j]
                    }
                } else {
                    old(v)@[j]
                }),
            forall|j: int| i <= j < n ==> v@[j] == old(v)@[j],
        decreases n - i,
    {
        if v[i].id == id {
            let e = &mut v[i];
            if e.reinforcement_count < u32::MAX {
                e.reinforcement_count = e.reinforcement_count + 1;
            }
            e.last_reinforced_at = t;
        }
        i = i + 1;
    }
    proof {
        assert(v@ =~= spec_reinforce_candidate(old(v)@, id, t));
    }
}

/// Drop every candidate with this id.
fn candidates_remove(v: &mut Vec<MemoryCandidate>, id: MemoryId)
    ensures
        final(v)@ == spec_remove_candidate(old(v)@, id),
{
    let mut src: Vec<MemoryCandidate> = Vec::new();
    core::mem::swap(&mut src, v);
    let ghost orig = src@;
    let n: usize = src.len();
    let mut i: usize = 0;
    while i < n
        invariant
            i <= n,
            n == orig.len(),
            src@ == orig.subrange(i as int, n as int),
            v@ == spec_remove_candidate(orig.subrange(0, i as int), id),
        decreases n - i,
    {
        let c = src.remove(0);
        proof {
            assert(orig.subrange(0, i + 1).drop_last() =~= orig.subrange(0, i as int));
            assert(orig.subrange(0, i + 1).last() == orig[i as int]);
        }
        if c.id != id {
            v.push(c);
        }
        proof {
            assert(src@ =~= orig.subrange(i + 1, n as int));
        }
        i = i + 1;
    }
    proof {
        assert(orig.subrange(0, n as int) =~= orig);
    }
}

/// Whether some record carries this id.
fn records_has(v: &Vec<MemoryRecord>, id: MemoryId) -> (r: bool)
    ensures
        r == spec_has_record(v@, id),
{
    let n: usize = v.len();
    let mut i: usize = 0;
    while i < n
        invariant
            i <= n,
            n == v@.len(),
            forall|j: int| 0 <= j < i ==> v@[j].id != id,
        decreases n - i,
    {
        if v[i].id == id {
            return true;
        }
        i = i + 1;
    }
    false
}

/// Drop every record with this id.
fn records_remove(v: &mut Vec<MemoryRecord>, id: MemoryId)
    ensures
        final(v)@ == spec_remove_record(old(v)@, id),
{
    let mut src: Vec<MemoryRecord> = Vec::new();
    core::mem::swap(&mut src, v);
    let ghost orig = src@;
    let n: usize = src.len();
    let mut i: usize = 0;
    while i < n
        invariant
            i <= n,
            n == orig.len(),
            src@ == orig.subrange(i as int, n as int),
            v@ == spec_remove_record(orig.subrange(0, i as int), id),
        decreases n - i,
    {
        let c = src.remove(0);
        proof {
            assert(orig.subrange(0, i + 1).drop_last() =~= orig.subrange(0, i as int));
            assert(orig.subrange(0, i + 1).last() == orig[i as int]);
        }
        if c.id != id {
            v.push(c);
        }
        proof {
            assert(src@ =~= orig.subrange(i + 1, n as int));
        }
        i = i + 1;
    }
    proof {
        assert(orig.subrange(0, n as int) =~= orig);
    }
}

/// Set the strength of every record with this id, in place.
fn records_decay(v: &mut Vec<MemoryRecord>, id: MemoryId, strength: Score)
    ensures
        final(v)@ == spec_record_decayed(old(v)@, id, strength),
{
    let n: usize = v.len();
    let mut i: usize = 0;
    while i < n
        invariant
            i <= n,
            n == v@.len(),
            v@.len() == old(v)@.len(),
            forall|j: int|
                0 <= j < i ==> v@[j] == (if old(v)@[j].id == id {
                    MemoryRecord { strength, ..old(v)@[j] }
                } else {
                    old(v)@[j]
                }),
            forall|j: int| i <= j < n ==> v@[j] == old(v)@[j],
        decreases n - i,
    {
        if v[i].id == id {
            let e = &mut v[i];
            e.strength = strength;
        }
        i = i + 1;
    }
    proof {
        assert(v@ =~= spec_record_decayed(old(v)@, id, strength));
    }
}

/// Stamp the access time of every record with this id, in place.
fn records_access(v: &mut Vec<MemoryRecord>, id: MemoryId, t: Tick)
    ensures
        final(v)@ == spec_record_accessed(old(v)@, id, t),
{
    let n: usize = v.len();
    let mut i: usize = 0;
    while i < n
        invariant
            i <= n,
            n == v@.len(),
            v@.len() == old(v)@.len(),
            forall|j: int|
                0 <= j < i ==> v@[j] == (if old(v)@[j].id == id {
                    MemoryRecord { last_accessed_at: t, ..old(v)@[j] }
                } else {
                    old(v)@[j]
                }),
            forall|j: int| i <= j < n ==> v@[j] == old(v)@[j],
        decreases n - i,
    {
        if v[i].id == id {
            let e = &mut v[i];
            e.last_accessed_at = t;
        }
        i = i + 1;
    }
    proof {
        assert(v@ =~= spec_record_accessed(old(v)@, id, t));
    }
}

/// Whether the list holds a final (granted or declined) answer for this key.
fn consent_has_final(v: &Vec<MemoryConsent>, key: MemoryKey) -> (r: bool)
    ensures
        r == spec_has_final_consent(v@, key),
{
    let n: usize = v.len();
    let mut i: usize = 0;
    while i < n
        invariant
            i <= n,
            n == v@.len(),
            forall|j: int|
                0 <= j < i ==> !(v@[j].memory_key == key && spec_consent_final(v@[j])),
        decreases n - i,
    {
        if v[i].memory_key == key && (matches!(v[i].state, MemoryConsentState::Granted)
            || matches!(v[i].state, MemoryConsentState::Declined)) {
            return true;
        }
        i = i + 1;
    }
    false
}

/// Whether the list has an entry for this key.
fn consent_has(v: &Vec<MemoryConsent>, key: MemoryKey) -> (r: bool)
    ensures
        r == spec_has_consent(v@, key),
{
    let n: usize = v.len();
    let mut i: usize = 0;
    while i < n
        invariant
            i <= n,
            n == v@.len(),
            forall|j: int| 0 <= j < i ==> v@[j].memory_key != key,
        decreases n - i,
    {
        if v[i].memory_key == key {
            return true;
        }
        i = i + 1;
    }
    false
}

/// Reset every entry for this key to a fresh ask, in place.
fn consent_ask(v: &mut Vec<MemoryConsent>, key: MemoryKey, t: Tick)
    ensures
        final(v)@ == spec_ask_consent(old(v)@, key, t),
{
    let n: usize = v.len();
    let mut i: usize = 0;
    while i < n
        invariant
            i <= n,
            n == v@.len(),
            v@.len() == old(v)@.len(),
            forall|j: int|
                0 <= j < i ==> v@[j] == (if old(v)@[j].memory_key == key {
                    spec_fresh_consent(key, t)
                } else {
                    old(v)@[j]
                }),
            forall|j: int| i <= j < n ==> v@[j] == old(v)@[j],
        decreases n - i,
    {
        if v[i].memory_key == key {
            v.set(i, MemoryConsent::new(key, t));
        }
        i = i + 1;
    }
    proof {
        assert(v@ =~= spec_ask_consent(old(v)@, key, t));
    }
}

/// Resolve every entry for this key, in place.
fn consent_resolve(v: &mut Vec<MemoryConsent>, key: MemoryKey, state: MemoryConsentState, at: Tick)
    ensures
        final(v)@ == spec_resolve_consent(old(v)@, key, state, at),
{
    let n: usize = v.len();
    let mut i: usize = 0;
    while i < n
        invariant
            i <= n,
            n == v@.len(),
            v@.len() == old(v)@.len(),
            forall|j: int|
                0 <= j < i ==> v@[j] == (if old(v)@[j].memory_key == key {
                    MemoryConsent { state, resolved_at: Some(at), ..old(v)@[j] }
                } else {
                    old(v)@[j]
                }),
            forall|j: int| i <= j < n ==> v@[j] == old(v)@[j],
        decreases n - i,
    {
        if v[i].memory_key == key {
            let e = &mut v[i];
            e.state = state;
            e.resolved_at = Some(at);
        }
        i = i + 1;
    }
    proof {
        assert(v@ =~= spec_resolve_consent(old(v)@, key, state, at));
    }
}

/// Whether some output carries this id.
fn outputs_has(v: &Vec<Output>, id: OutputId) -> (r: bool)
    ensures
        r == spec_has_output(v@, id),
{
    let n: usize = v.len();
    let mut i: usize = 0;
    while i < n
        invariant
            i <= n,
            n == v@.len(),
            forall|j: int| 0 <= j < i ==> v@[j].id != id,
        decreases n - i,
    {
        if v[i].id == id {
            return true;
        }
        i = i + 1;
    }
    false
}

/// What the boot state looks like: dormant, silent, empty, version zero.
pub open spec fn spec_initial(s: SharedState) -> bool {
    &&& s.active_outputs@.len() == 0
    &&& s.canceled_tasks@.len() == 0
    &&& s.version == 0
    &&& s.last_tick.frame == 0
    &&& !s.user_speaking
    &&& s.turn_pressure == 0
    &&& s.last_speech_start is None
    &&& s.last_speech_end is None
    &&& !s.hesitation_detected
    &&& s.visual == VisualState { hash: 0, stability_score: 0 }
    &&& s.latents.slots@.len() == 0
    &&& s.meta_latents == MetaLatents {
        interruption_sensitivity: 0u32,
        confidence_penalty: 0u32,
        correction_bias: 0u32,
    }
    &&& s.active_intents@.len() == 0
    &&& s.presence == PresenceState::Dormant
    &&& s.audio_segments@.len() == 0
    &&& s.active_segment_id is None
    &&& s.intent_state is Idle
    &&& s.memory_candidates@.len() == 0
    &&& s.long_term_memory@.len() == 0
    &&& s.memory_consent@.len() == 0
}

impl Default for SharedState {
    /// The boot state: dormant, silent, empty, version zero.
    fn default() -> (s: Self)
        ensures
            spec_initial(s),
            state_ok(s),
    {
        SharedState {
            active_outputs: Vec::new(),
            canceled_tasks: Vec::new(),
            version: 0,
            last_tick: Tick { frame: 0 },
            user_speaking: false,
            turn_pressure: 0,
            last_speech_start: None,
            last_speech_end: None,
            hesitation_detected: false,
            visual: VisualState { hash: 0, stability_score: 0 },
            latents: LatentState { slots: Vec::new() },
            meta_latents: MetaLatents {
                interruption_sensitivity: 0,
                confidence_penalty: 0,
                correction_bias: 0,
            },
            active_intents: Vec::new(),
            presence: PresenceState::Dormant,
            audio_segments: Vec::new(),
            active_segment_id: None,
            intent_state: IntentState::Idle,
            memory_candidates: Vec::new(),
            long_term_memory: Vec::new(),
            memory_consent: Vec::new(),
        }
    }
}

impl SharedState {
    /// The boot state.
    pub fn new() -> (s: Self)
        ensures
            spec_initial(s),
            state_ok(s),
    {
        Self::default()
    }

    /// Read-only view of the outputs.
    pub fn active_outputs(&self) -> (r: &Vec<Output>)
        ensures
            r == &self.active_outputs,
    {
        &self.active_outputs
    }

    /// Read-only view of the canceled task ids.
    pub fn canceled_tasks(&self) -> (r: &Vec<String>)
        ensures
            r == &self.canceled_tasks,
    {
        &self.canceled_tasks
    }

    /// The state window a planner dispatch carries. The latent summary is
    /// the textual firewall in structured form: exactly the channel and
    /// confidence of each slot above the summary floor, in slot order, and
    /// never their raw values; the mood is the label list the meta-latent
    /// thresholds dictate.
    pub fn snapshot(
        &self,
        tick: Tick,
        intent_context: crate::planner::IntentContext,
    ) -> (r: crate::planner::StateSnapshot)
        requires
            state_ok(*self),
        ensures
            r.epoch == (crate::planner::PlanningEpoch { tick, state_version: self.version }),
            r.user_active == self.user_speaking,
            r.active_outputs == self.active_outputs@.len(),
            r.recent_interruptions == self.canceled_tasks@.len(),
            r.latent_summary@ == spec_summary_of(self.latents.slots@),
            r.meta_mood@ == spec_mood_of(self.meta_latents),
            r.intent_context == intent_context,
    {
        let mut latent_summary: Vec<crate::planner::LatentSummary> = Vec::new();
        let n: usize = self.latents.slots.len();
        let mut i: usize = 0;
        while i < n
            invariant
                i <= n,
                n == self.latents.slots@.len(),
                latent_summary@ == spec_summary_of(self.latents.slots@.subrange(0, i as int)),
            decreases n - i,
        {
            proof {
                assert(self.latents.slots@.subrange(0, i + 1).drop_last()
                    =~= self.latents.slots@.subrange(0, i as int));
                assert(self.latents.slots@.subrange(0, i + 1).last()
                    == self.latents.slots@[i as int]);
            }
            let sl = &self.latents.slots[i];
            if sl.confidence > SUMMARY_FLOOR {
                latent_summary.push(
                    crate::planner::LatentSummary { modality: sl.modality, confidence: sl.confidence },
                );
            }
            i = i + 1;
        }
        proof {
            assert(self.latents.slots@.subrange(0, n as int) =~= self.latents.slots@);
        }
        let mut meta_mood: Vec<crate::planner::MoodLabel> = Vec::new();
        if self.meta_latents.confidence_penalty > CAUTIOUS_FLOOR {
            meta_mood.push(crate::planner::MoodLabel::Cautious);
        }
        if self.meta_latents.interruption_sensitivity > SENSITIVE_FLOOR {
            meta_mood.push(crate::planner::MoodLabel::Sensitive);
        }
        if self.meta_latents.correction_bias > REFLECTIVE_FLOOR {
            meta_mood.push(crate::planner::MoodLabel::Reflective);
        }
        proof {
            assert(meta_mood@ =~= spec_mood_of(self.meta_latents));
        }
        crate::planner::StateSnapshot {
            epoch: crate::planner::PlanningEpoch { tick, state_version: self.version },
            last_input_ticks: 0,
            user_active: self.user_speaking,
            active_outputs: self.active_outputs.len(),
            recent_interruptions: self.canceled_tasks.len(),
            latent_summary,
            meta_mood,
            intent_context,
        }
    }

    /// The reducer: applies one delta, bumps the version, and touches nothing
    /// the delta does not name. Once an output is canceled, no delta ever
    /// gives it another status.
    #[verifier::rlimit(100)]
    pub fn reduce(&mut self, delta: StateDelta)
        requires
            state_ok(*old(self)),
            delta_ok(delta),
        ensures
            spec_reduced(*old(self), delta, *final(self)),
            state_ok(*final(self)),
            final(self).active_outputs@.len() >= old(self).active_outputs@.len(),
            forall|i: int|
                0 <= i < old(self).active_outputs@.len() ==> (#[trigger] final(self).active_outputs@[i]).id
                    == old(self).active_outputs@[i].id,
            forall|i: int|
                0 <= i < old(self).active_outputs@.len() && old(self).active_outputs@[i].status
                    is Canceled ==> final(self).active_outputs@[i] == old(self).active_outputs@[i],
    {
        if self.version < u64::MAX {
            self.version = self.version + 1;
        }
        match delta {
            StateDelta::Tick(t) => {
                self.last_tick = t;
                if !self.user_speaking {
                    if self.turn_pressure >= PRESSURE_DECAY {
                        self.turn_pressure = self.turn_pressure - PRESSURE_DECAY;
                    } else {
                        self.turn_pressure = 0;
                    }
                } else if self.active_outputs.len() > 0 {
                    if self.turn_pressure + PRESSURE_RISE <= UNIT {
                        self.turn_pressure = self.turn_pressure + PRESSURE_RISE;
                    } else {
                        self.turn_pressure = UNIT;
                    }
                }
                if self.visual.stability_score >= STABILITY_DECAY {
                    self.visual.stability_score = self.visual.stability_score - STABILITY_DECAY;
                } else {
                    self.visual.stability_score = 0;
                }
                slots_tick(&mut self.latents.slots);
            },
            StateDelta::InputReceived(e) => {
                match e.content {
                    InputContent::Audio(AudioSignal::SpeechStart) => {
                        self.user_speaking = true;
                        self.last_speech_start = Some(self.last_tick);
                        self.hesitation_detected = false;
                    },
                    InputContent::Audio(AudioSignal::SpeechEnd) => {
                        self.user_speaking = false;
                        let hes = match self.last_speech_start {
                            Some(start) => {
                                self.last_tick.frame >= start.frame && self.last_tick.frame
                                    - start.frame > 0 && self.last_tick.frame - start.frame
                                    < HESITATION_TICKS
                            },
                            None => false,
                        };
                        if hes {
                            self.hesitation_detected = true;
                        }
                        self.last_speech_end = Some(self.last_tick);
                    },
                    _ => {},
                }
            },
            StateDelta::OutputProposed(o) => {
                if !outputs_has(&self.active_outputs, o.id) {
                    self.active_outputs.push(o);
                }
            },
            StateDelta::OutputCommitted(id) => {
                outputs_commit_by_id(&mut self.active_outputs, id);
            },
            StateDelta::OutputCanceled(id) => {
                outputs_cancel_by_id(&mut self.active_outputs, id);
            },
            StateDelta::TaskCanceled(task) => {
                outputs_cancel_by_parent(&mut self.active_outputs, &task);
                tasks_insert(&mut self.canceled_tasks, task);
            },
            StateDelta::VisualStateUpdate { hash, stability } => {
                self.visual.hash = hash;
                self.visual.stability_score = stability;
            },
            StateDelta::LatentUpdate { slot } => {
                self.latents.slots.push(slot);
            },
            StateDelta::MetaLatentUpdate { delta } => {
                self.meta_latents = delta;
            },
            StateDelta::LongHorizonIntentUpdate(intent) => {
                intents_upsert(&mut self.active_intents, intent);
            },
            StateDelta::PresenceTransition(req) => {
                match PresenceGraph::transition(self.presence, req) {
                    Some(next) => {
                        self.presence = next;
                    },
                    None => {},
                }
            },
            StateDelta::PresenceUpdate(next) => {
                self.presence = next;
            },
            StateDelta::AudioSegmentCreated(seg) => {
                match segments_find(&self.audio_segments, seg.id) {
                    Some(_) => {},
                    None => {
                        self.active_segment_id = Some(seg.id);
                        self.audio_segments.push(seg);
                    },
                }
            },
            StateDelta::AudioFrameAppended { segment_id, frames } => {
                segments_append_frames(&mut self.audio_segments, segment_id, frames);
            },
            StateDelta::AudioSegmentFinalized { segment_id, end_tick } => {
                segments_finalize(&mut self.audio_segments, segment_id, end_tick);
                if self.active_segment_id == Some(segment_id) {
                    self.active_segment_id = None;
                }
            },
            StateDelta::AudioSegmentTranscribing(segment_id) => {
                segments_transcribing(&mut self.audio_segments, segment_id);
            },
            StateDelta::AudioSegmentTranscribed { segment_id, text } => {
                segments_transcribed(&mut self.audio_segments, segment_id, text);
            },
            StateDelta::AssessmentUpdate(s) => {
                self.intent_state = s;
            },
            StateDelta::MemoryCandidateCreated(c) => {
                if !candidates_has(&self.memory_candidates, c.id) {
                    self.memory_candidates.push(c);
                }
            },
            StateDelta::MemoryCandidateReinforced(id, t) => {
                candidates_reinforce(&mut self.memory_candidates, id, t);
            },
            StateDelta::MemoryPromoted(r) => {
                if !records_has(&self.long_term_memory, r.id) {
                    self.long_term_memory.push(r);
                }
            },
            StateDelta::MemoryDecayed { id, new_strength } => {
                records_decay(&mut self.long_term_memory, id, new_strength);
            },
            StateDelta::MemoryForgotten(id) => {
                candidates_remove(&mut self.memory_candidates, id);
                records_remove(&mut self.long_term_memory, id);
            },
            StateDelta::MemoryCandidateRemoved(id) => {
                candidates_remove(&mut self.memory_candidates, id);
            },
            StateDelta::MemoryAccessed { id, time } => {
                records_access(&mut self.long_term_memory, id, time);
            },
            StateDelta::MemoryConsentAsked(key, t) => {
                if !consent_has_final(&self.memory_consent, key) {
                    if consent_has(&self.memory_consent, key) {
                        consent_ask(&mut self.memory_consent, key, t);
                    } else {
                        self.memory_consent.push(MemoryConsent::new(key, t));
                    }
                }
            },
            StateDelta::MemoryConsentResolved { key, state, resolved_at } => {
                if consent_has(&self.memory_consent, key) {
                    consent_resolve(&mut self.memory_consent, key, state, resolved_at);
                } else {
                    self.memory_consent.push(
                        MemoryConsent {
                            memory_key: key,
                            state,
                            asked_at: resolved_at,
                            resolved_at: Some(resolved_at),
                        },
                    );
                }
            },
        }
        proof {
            let pre = *old(self);
            let post = *self;
            assert forall|i: int|
                0 <= i < post.memory_candidates@.len() implies memory_candidate_ok(
                #[trigger] post.memory_candidates@[i],
            ) by {
                match delta {
                    StateDelta::MemoryCandidateReinforced(id, t) => {
                        assert(post.memory_candidates@[i] == spec_reinforce_candidate(
                            pre.memory_candidates@,
                            id,
                            t,
                        )[i]);
                        assert(memory_candidate_ok(pre.memory_candidates@[i]));
                    },
                    StateDelta::MemoryForgotten(id) => {
                        lemma_remove_candidate_ok(pre.memory_candidates@, id);
                    },
                    StateDelta::MemoryCandidateRemoved(id) => {
                        lemma_remove_candidate_ok(pre.memory_candidates@, id);
                    },
                    _ => {
                        if i < pre.memory_candidates@.len() {
                            assert(memory_candidate_ok(pre.memory_candidates@[i]));
                        }
                    },
                }
            };
            assert forall|i: int|
                0 <= i < post.long_term_memory@.len() implies memory_record_ok(
                #[trigger] post.long_term_memory@[i],
            ) by {
                match delta {
                    StateDelta::MemoryDecayed { id, new_strength } => {
                        assert(post.long_term_memory@[i] == spec_record_decayed(
                            pre.long_term_memory@,
                            id,
                            new_strength,
                        )[i]);
                        assert(memory_record_ok(pre.long_term_memory@[i]));
                    },
                    StateDelta::MemoryAccessed { id, time } => {
                        assert(post.long_term_memory@[i] == spec_record_accessed(
                            pre.long_term_memory@,
                            id,
                            time,
                        )[i]);
                        assert(memory_record_ok(pre.long_term_memory@[i]));
                    },
                    StateDelta::MemoryForgotten(id) => {
                        lemma_remove_record_ok(pre.long_term_memory@, id);
                    },
                    _ => {
                        if i < pre.long_term_memory@.len() {
                            assert(memory_record_ok(pre.long_term_memory@[i]));
                        }
                    },
                }
            };
            assert forall|a: int, b: int|
                0 <= a < b < post.active_intents@.len() implies (
                #[trigger] post.active_intents@[a]).id != (#[trigger] post.active_intents@[b]).id by {
                match delta {
                    StateDelta::LongHorizonIntentUpdate(intent) => {
                        if exists|i: int|
                            0 <= i < pre.active_intents@.len()
                                && (#[trigger] pre.active_intents@[i]).id == intent.id {
                            let i0 = choose|i: int|
                                {
                                    &&& 0 <= i < pre.active_intents@.len()
                                    &&& (#[trigger] pre.active_intents@[i]).id == intent.id
                                    &&& forall|j: int|
                                        0 <= j < i ==> pre.active_intents@[j].id != intent.id
                                    &&& post.active_intents@.len() == pre.active_intents@.len()
                                    &&& post.active_intents@[i] == intent
                                    &&& forall|j: int|
                                        0 <= j < post.active_intents@.len() && j != i
                                            ==> post.active_intents@[j] == pre.active_intents@[j]
                                };
                            assert(post.active_intents@[a].id == pre.active_intents@[a].id);
                            assert(post.active_intents@[b].id == pre.active_intents@[b].id);
                        } else {
                            assert(post.active_intents@ == pre.active_intents@.push(intent));
                            if b == post.active_intents@.len() - 1 {
                                assert(post.active_intents@[a] == pre.active_intents@[a]);
                                assert(post.active_intents@[b] == intent);
                            } else {
                                assert(post.active_intents@[a] == pre.active_intents@[a]);
                                assert(post.active_intents@[b] == pre.active_intents@[b]);
                            }
                        }
                    },
                    _ => {
                        assert(post.active_intents@[a] == pre.active_intents@[a]);
                        assert(post.active_intents@[b] == pre.active_intents@[b]);
                    },
                }
            };
            assert forall|i: int|
                0 <= i < post.active_intents@.len() implies score_ok(
                #[trigger] post.active_intents@[i].decay_score,
            ) by {
                match delta {
                    StateDelta::LongHorizonIntentUpdate(intent) => {
                        if i < pre.active_intents@.len() {
                            assert(score_ok(pre.active_intents@[i].decay_score));
                        }
                    },
                    _ => {
                        if i < pre.active_intents@.len() {
                            assert(score_ok(pre.active_intents@[i].decay_score));
                        }
                    },
                }
            };
            assert forall|i: int|
                0 <= i < post.latents.slots@.len() implies slot_ok(
                #[trigger] post.latents.slots@[i],
            ) by {
                match delta {
                    StateDelta::Tick(t) => {},
                    _ => {
                        if i < pre.latents.slots@.len() {
                            assert(slot_ok(pre.latents.slots@[i]));
                        }
                    },
                }
            };
        }
    }
}

} // verus!
