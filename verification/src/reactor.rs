//! The reactor: owner of all state, running the fixed-cadence tick step.
//!
//! The step is pure with respect to the outside world: it never blocks,
//! never performs a system call, and returns every action — side effects,
//! a planner dispatch, a planner abort — to the driver. The ordered phases
//! within a step are strict: clock, classification, pre-processing,
//! observation, cancellation, intent suspension and decay and resumption,
//! reduction, latent derivation, proposal ingestion, dispatch, gated
//! scheduling, and post-tick maintenance.

use vstd::prelude::*;
use crate::arbitrator::IntentArbitrator;
use crate::cancel::CancellationRegistry;
use crate::consolidator::MemoryConsolidator;
use crate::event::{
    AudioSignal, AudioStatus, Event, InputContent, InputEvent, Output, OutputId, OutputStatus,
};
use crate::gate::{CrystallizationDecision, check_gate, extract_snapshot};
use crate::intent::{IntentCandidate, IntentState, candidate_ok, intent_state_ok};
use crate::latent::{LatentSlot, Modality};
use crate::lhim::LongHorizonIntentManager;
use crate::monitor::{SelfObservation, SelfObservationMonitor, monitor_ok};
use crate::planner::{Intent, PlanningEpoch, StateSnapshot};
use crate::realizer::realize;
use crate::scheduler::{Scheduler, SideEffect};
use crate::segment::{AudioSegment, SegmentStatus};
use crate::speech::SpeechPlanner;
use crate::state::{
    SharedState, StateDelta, VisualState, spec_belongs_to, spec_decay_slots, spec_stability_after,
    spec_with_status, state_ok,
};
use crate::telemetry::{
    DialogueActKind, InterruptionSource, MemoryEventKind, OutputEventKind, TelemetryEvent,
    TelemetryRecorder, recorder_ok,
};
use crate::tick::{TICK_MS, Tick};
use crate::vad::AudioMonitor;

verus! {

/// The most events one step accepts; keeps scheduling ordinals in range.
pub const MAX_EVENTS_PER_TICK: usize = 60000;

/// Whether the kernel accepts user input at all.
#[derive(Debug, Clone, Copy, PartialEq, Eq, Structural)]
pub enum KernelMode {
    /// All user input is silently discarded.
    Onboarding,
    Active,
}

/// Static configuration.
#[derive(Debug, Clone, Copy, PartialEq, Eq, Structural)]
pub struct ReactorConfig {
    /// With safe mode on, the consolidator produces no deltas at all.
    pub safe_mode: bool,
}

/// Everything one tick step hands back to the driver.
pub struct TickOutcome {
    /// Actions for the driver, in order.
    pub effects: Vec<SideEffect>,
    /// A state window to dispatch to the planner, if the step chose to.
    pub planner_dispatch: Option<StateSnapshot>,
    /// Whether any in-flight planner request must be aborted.
    pub planner_abort: bool,
    /// The crystallization gate's verdict for this tick.
    pub gate_decision: CrystallizationDecision,
    /// The state version at which the step ingested proposals and decided
    /// on a dispatch; the acceptance window is judged against it.
    pub ingest_version: Ghost<u64>,
}

/// Whether the events hold any driver input at all.
pub open spec fn spec_any_input(events: Seq<Event>) -> bool {
    exists|i: int| 0 <= i < events.len() && (#[trigger] events[i]) matches Event::Input(e)
}

/// The planner proposals among the events, in arrival order.
pub open spec fn spec_plans_of(events: Seq<Event>) -> Seq<(PlanningEpoch, Intent)>
    decreases events.len(),
{
    if events.len() == 0 {
        Seq::empty()
    } else {
        let rest = spec_plans_of(events.drop_last());
        match events.last() {
            Event::PlanProposed(epoch, intent) => rest.push((epoch, intent)),
            _ => rest,
        }
    }
}

/// The intents this step schedules: of the proposals among the events,
/// exactly those whose epoch the acceptance window admits.
pub open spec fn spec_step_accepted(events: Seq<Event>, version: u64) -> Seq<Intent> {
    spec_accepted_intents(spec_plans_of(events), version)
}

/// Whether some event carries text that reads as the stop phrase.
pub open spec fn spec_any_stop_text(events: Seq<Event>) -> bool {
    exists|i: int|
        0 <= i < events.len() && ((#[trigger] events[i]) matches Event::Input(e)
            && crate::cancel::spec_is_stop(e))
}

/// Whether some event is an explicit speech edge of the given kind.
pub open spec fn spec_any_explicit_edge(events: Seq<Event>, sig: AudioSignal) -> bool {
    exists|i: int|
        0 <= i < events.len() && ((#[trigger] events[i]) matches Event::Input(e) && e.content
            matches InputContent::Audio(s) && s == sig)
}

/// Whether some event carries a raw audio chunk (which can inject synthetic
/// speech edges of its own).
pub open spec fn spec_any_chunk(events: Seq<Event>) -> bool {
    exists|i: int|
        0 <= i < events.len() && ((#[trigger] events[i]) matches Event::Input(e) && e.content
            matches InputContent::AudioChunk { frames, energy })
}

/// Whether some event answers a memory-consent prompt.
pub open spec fn spec_any_consent_response(events: Seq<Event>) -> bool {
    exists|i: int|
        0 <= i < events.len() && ((#[trigger] events[i]) matches Event::Input(e) && e.content
            matches InputContent::MemoryConsentResponse { key, state })
}

/// Whether some event requests transcription of this segment.
pub open spec fn spec_any_transcription_request(events: Seq<Event>, segment_id: u64) -> bool {
    exists|i: int|
        0 <= i < events.len() && ((#[trigger] events[i]) matches Event::Input(e) && e.content
            matches InputContent::TranscriptionRequest { segment_id: s } && s == segment_id)
}

/// Whether the first segment carrying this id is pending transcription.
pub open spec fn spec_segment_pending(segs: Seq<AudioSegment>, id: u64) -> bool
    decreases segs.len(),
{
    if segs.len() == 0 {
        false
    } else if segs.first().id == id {
        segs.first().status == SegmentStatus::Pending
    } else {
        spec_segment_pending(segs.drop_first(), id)
    }
}

/// The speaking flag after a list of inputs is reduced in order: the last
/// speech edge wins.
pub open spec fn spec_speaking_after(b: bool, inputs: Seq<InputEvent>) -> bool
    decreases inputs.len(),
{
    if inputs.len() == 0 {
        b
    } else {
        match inputs.last().content {
            InputContent::Audio(AudioSignal::SpeechStart) => true,
            InputContent::Audio(AudioSignal::SpeechEnd) => false,
            _ => spec_speaking_after(b, inputs.drop_last()),
        }
    }
}

/// The reactor.
#[derive(Debug)]
pub struct Reactor {
    pub state: SharedState,
    pub scheduler: Scheduler,
    pub cancel_registry: CancellationRegistry,
    pub tick: Tick,
    pub last_planned_version: Option<u64>,
    pub consolidator: MemoryConsolidator,
    pub monitor: SelfObservationMonitor,
    pub audio_monitor: AudioMonitor,
    pub lhim: LongHorizonIntentManager,
    pub arbitrator: IntentArbitrator,
    pub telemetry: TelemetryRecorder,
    pub mode: KernelMode,
    pub config: ReactorConfig,
    /// Source of fresh audio segment identifiers.
    pub next_segment_id: u64,
}

/// The reactor's standing invariant.
pub open spec fn reactor_ok(r: Reactor) -> bool {
    &&& state_ok(r.state)
    &&& recorder_ok(r.telemetry)
    &&& monitor_ok(r.monitor)
    &&& r.audio_monitor.sample_rate > 0
}

/// Whether a proposal epoch is accepted at a version: the current version,
/// one behind it (a planner racing a just-reduced input), or the zero debug
/// epoch — and nothing older.
pub open spec fn spec_epoch_accepted(e: PlanningEpoch, version: u64) -> bool {
    e.state_version == version || e.state_version + 1 == version || e.state_version == 0
}

/// The intents of the accepted proposals, in arrival order.
pub open spec fn spec_accepted_intents(plans: Seq<(PlanningEpoch, Intent)>, version: u64) -> Seq<
    Intent,
>
    decreases plans.len(),
{
    if plans.len() == 0 {
        Seq::empty()
    } else {
        let rest = spec_accepted_intents(plans.drop_last(), version);
        if spec_epoch_accepted(plans.last().0, version) {
            rest.push(plans.last().1)
        } else {
            rest
        }
    }
}

/// Stale rejection: keep exactly the proposals whose epoch falls in the
/// acceptance window at this version.
fn accept_proposals(plans: Vec<(PlanningEpoch, Intent)>, version: u64) -> (r: Vec<Intent>)
    ensures
        r@ == spec_accepted_intents(plans@, version),
{
    let mut src = plans;
    let ghost orig = src@;
    let mut r: Vec<Intent> = Vec::new();
    let n: usize = src.len();
    let mut i: usize = 0;
    while i < n
        invariant
            i <= n,
            n == orig.len(),
            src@ == orig.subrange(i as int, n as int),
            r@ == spec_accepted_intents(orig.subrange(0, i as int), version),
        decreases n - i,
    {
        let (epoch, intent) = src.remove(0);
        proof {
            assert(orig.subrange(0, i + 1).drop_last() =~= orig.subrange(0, i as int));
            assert(orig.subrange(0, i + 1).last() == orig[i as int]);
        }
        if epoch.state_version == version || epoch.state_version < u64::MAX
            && epoch.state_version + 1 == version || epoch.state_version == 0 {
            r.push(intent);
        }
        proof {
            assert(src@ =~= orig.subrange(i + 1, n as int));
        }
        i = i + 1;
    }
    proof {
        assert(orig.subrange(0, n as int) =~= orig);
    }
    r
}

/// A delta one of the managers may propose during pre-processing: an
/// intent update or a memory ingestion. None of these can touch outputs,
/// segments, the assessment, or the user's speech flags.
pub open spec fn spec_delta_manager(d: StateDelta) -> bool {
    match d {
        StateDelta::LongHorizonIntentUpdate(_) => true,
        StateDelta::MemoryCandidateCreated(_) => true,
        StateDelta::MemoryCandidateReinforced(_, _) => true,
        _ => false,
    }
}

/// Whether any event is a driver input.
fn has_input_event(events: &Vec<Event>) -> (r: bool)
    ensures
        r == spec_any_input(events@),
{
    let n: usize = events.len();
    let mut i: usize = 0;
    while i < n
        invariant
            i <= n,
            n == events@.len(),
            forall|j: int| 0 <= j < i ==> !((#[trigger] events@[j]) matches Event::Input(e)),
        decreases n - i,
    {
        match &events[i] {
            Event::Input(_) => {
                proof {
                    assert((events@[i as int]) matches Event::Input(e));
                }
                return true;
            },
            _ => {},
        }
        i = i + 1;
    }
    false
}

/// A list of inputs holding a speech start and no speech end leaves the
/// speaking flag raised.
proof fn lemma_speaking_fold(b: bool, inputs: Seq<InputEvent>)
    requires
        exists|i: int|
            0 <= i < inputs.len() && ((#[trigger] inputs[i]).content matches InputContent::Audio(
                sig,
            ) && sig == AudioSignal::SpeechStart),
        forall|i: int|
            0 <= i < inputs.len() ==> !((#[trigger] inputs[i]).content matches InputContent::Audio(
                sig,
            ) && sig == AudioSignal::SpeechEnd),
    ensures
        spec_speaking_after(b, inputs),
    decreases inputs.len(),
{
    let w = choose|i: int|
        0 <= i < inputs.len() && ((#[trigger] inputs[i]).content matches InputContent::Audio(sig)
            && sig == AudioSignal::SpeechStart);
    match inputs.last().content {
        InputContent::Audio(AudioSignal::SpeechStart) => {},
        InputContent::Audio(AudioSignal::SpeechEnd) => {
            assert(false);
        },
        _ => {
            assert(w < inputs.len() - 1);
            assert(inputs.drop_last()[w] == inputs[w]);
            lemma_speaking_fold(b, inputs.drop_last());
        },
    }
}

/// Growing a prefix by one event either adds a stop text or leaves the
/// stop-text question to the prefix.
proof fn lemma_any_stop_split(events: Seq<Event>, k: int)
    requires
        0 <= k < events.len(),
    ensures
        spec_any_stop_text(events.subrange(0, k + 1)) == (spec_any_stop_text(
            events.subrange(0, k),
        ) || (events[k] matches Event::Input(e) && crate::cancel::spec_is_stop(e))),
{
    let pre = events.subrange(0, k);
    let cur = events.subrange(0, k + 1);
    assert(cur[k] == events[k]);
    if spec_any_stop_text(cur) {
        let w = choose|i: int|
            0 <= i < cur.len() && ((#[trigger] cur[i]) matches Event::Input(e)
                && crate::cancel::spec_is_stop(e));
        if w < k {
            assert(pre[w] == cur[w]);
            assert(spec_any_stop_text(pre));
        }
    }
    if spec_any_stop_text(pre) {
        let w = choose|i: int|
            0 <= i < pre.len() && ((#[trigger] pre[i]) matches Event::Input(e)
                && crate::cancel::spec_is_stop(e));
        assert(cur[w] == pre[w]);
        assert(spec_any_stop_text(cur));
    }
    if events[k] matches Event::Input(e) && crate::cancel::spec_is_stop(e) {
        assert(spec_any_stop_text(cur));
    }
}

/// The same split, for explicit speech edges.
proof fn lemma_any_edge_split(events: Seq<Event>, k: int, sig: AudioSignal)
    requires
        0 <= k < events.len(),
    ensures
        spec_any_explicit_edge(events.subrange(0, k + 1), sig) == (spec_any_explicit_edge(
            events.subrange(0, k),
            sig,
        ) || (events[k] matches Event::Input(e) && e.content matches InputContent::Audio(s) && s
            == sig)),
{
    let pre = events.subrange(0, k);
    let cur = events.subrange(0, k + 1);
    assert(cur[k] == events[k]);
    if spec_any_explicit_edge(cur, sig) {
        let w = choose|i: int|
            0 <= i < cur.len() && ((#[trigger] cur[i]) matches Event::Input(e) && e.content
                matches InputContent::Audio(s) && s == sig);
        if w < k {
            assert(pre[w] == cur[w]);
            assert(spec_any_explicit_edge(pre, sig));
        }
    }
    if spec_any_explicit_edge(pre, sig) {
        let w = choose|i: int|
            0 <= i < pre.len() && ((#[trigger] pre[i]) matches Event::Input(e) && e.content
                matches InputContent::Audio(s) && s == sig);
        assert(cur[w] == pre[w]);
        assert(spec_any_explicit_edge(cur, sig));
    }
    if events[k] matches Event::Input(e) && e.content matches InputContent::Audio(s) && s == sig {
        assert(spec_any_explicit_edge(cur, sig));
    }
}

/// There are never more proposals than events.
proof fn lemma_plans_len(events: Seq<Event>)
    ensures
        spec_plans_of(events).len() <= events.len(),
    decreases events.len(),
{
    if events.len() > 0 {
        lemma_plans_len(events.drop_last());
    }
}

/// Accepted proposals are never more numerous than the proposals.
proof fn lemma_accepted_len(plans: Seq<(PlanningEpoch, Intent)>, version: u64)
    ensures
        spec_accepted_intents(plans, version).len() <= plans.len(),
    decreases plans.len(),
{
    if plans.len() > 0 {
        lemma_accepted_len(plans.drop_last(), version);
    }
}

/// A delta justified by the consolidator's rules against a well-formed
/// state is admissible for the reducer and proposes no output.
proof fn lemma_justified_delta_ok(d: StateDelta, state: SharedState, now: Tick)
    requires
        crate::consolidator::spec_tick_delta_justified(d, state, now),
        state_ok(state),
    ensures
        crate::state::delta_ok(d),
        !(d matches StateDelta::OutputProposed(o)),
{
    match d {
        StateDelta::MemoryDecayed { id, new_strength } => {
            let i = choose|i: int|
                0 <= i < state.long_term_memory@.len() && {
                    let r = #[trigger] state.long_term_memory@[i];
                    r.id == id && crate::consolidator::spec_out_of_grace(r, now)
                        && new_strength as nat == crate::consolidator::spec_decayed_strength(r)
                        && new_strength >= crate::consolidator::FORGET_THRESHOLD
                };
            let r = state.long_term_memory@[i];
            assert(crate::memory::memory_record_ok(r));
            crate::score::lemma_decay_step_le(
                r.strength as nat,
                crate::consolidator::DECAY_FACTOR as nat,
            );
        },
        StateDelta::MemoryPromoted(rec) => {
            let i = choose|i: int|
                0 <= i < state.memory_candidates@.len() && {
                    let c = #[trigger] state.memory_candidates@[i];
                    crate::consolidator::spec_promotable(c, now, state.memory_consent@)
                        && crate::consolidator::spec_promoted_record(c, now, rec)
                };
            let c = state.memory_candidates@[i];
            assert(crate::memory::memory_candidate_ok(c));
        },
        _ => {},
    }
}

/// The most confident candidate, the later of equals; nothing for an empty
/// list.
fn best_candidate(cands: &Vec<IntentCandidate>) -> (r: Option<IntentCandidate>)
    requires
        forall|i: int| 0 <= i < cands@.len() ==> candidate_ok(#[trigger] cands@[i]),
    ensures
        cands@.len() == 0 <==> r is None,
        r matches Some(c) ==> crate::intent::cand_eq(
            c,
            crate::arbitrator::spec_best(cands@),
        ) && candidate_ok(c),
{
    let n: usize = cands.len();
    if n == 0 {
        return None;
    }
    let mut best: usize = 0;
    let mut i: usize = 1;
    while i < n
        invariant
            1 <= i <= n,
            n == cands@.len(),
            best < i,
            forall|j: int| 0 <= j < cands@.len() ==> candidate_ok(#[trigger] cands@[j]),
            cands@[best as int] == crate::arbitrator::spec_best(cands@.subrange(0, i as int)),
        decreases n - i,
    {
        proof {
            assert(cands@.subrange(0, i + 1).drop_last() =~= cands@.subrange(0, i as int));
            assert(cands@.subrange(0, i + 1).last() == cands@[i as int]);
        }
        if cands[i].confidence >= cands[best].confidence {
            best = i;
        }
        i = i + 1;
    }
    proof {
        assert(cands@.subrange(0, n as int) =~= cands@);
        assert(candidate_ok(cands@[best as int]));
    }
    Some(cands[best].clone())
}

impl Reactor {
    /// A freshly booted reactor: initial state, tick zero, active mode.
    pub fn new(config: ReactorConfig) -> (r: Reactor)
        ensures
            reactor_ok(r),
            crate::state::spec_initial(r.state),
            r.tick.frame == 0,
            r.mode == KernelMode::Active,
            r.config == config,
            r.last_planned_version is None,
            r.next_segment_id == 1,
    {
        let mut telemetry = TelemetryRecorder::new();
        if config.safe_mode {
            telemetry.record(TelemetryEvent::SafeModeActive);
        }
        Reactor {
            state: SharedState::new(),
            scheduler: Scheduler,
            cancel_registry: CancellationRegistry::new(),
            tick: Tick::new(),
            last_planned_version: None,
            consolidator: MemoryConsolidator::new(),
            monitor: SelfObservationMonitor::new(),
            audio_monitor: AudioMonitor::new(48000),
            lhim: LongHorizonIntentManager::new(),
            arbitrator: IntentArbitrator::new(),
            telemetry,
            mode: KernelMode::Active,
            config,
            next_segment_id: 1,
        }
    }

    /// Set the kernel mode.
    pub fn set_mode(&mut self, mode: KernelMode)
        ensures
            *final(self) == (Reactor { mode, ..*old(self) }),
    {
        self.mode = mode;
    }

    /// Suspend the current intent assessment on a speech start: a forming
    /// set collapses to its best candidate, a stable intent is preserved
    /// as suspended; anything else stays.
    fn interruption_suspend_assessment(&mut self)
        requires
            state_ok(old(self).state),
        ensures
            state_ok(final(self).state),
            final(self).state.version >= old(self).state.version,
            final(self).state.active_outputs == old(self).state.active_outputs,
            final(self).state.memory_candidates == old(self).state.memory_candidates,
            final(self).state.long_term_memory == old(self).state.long_term_memory,
            final(self).state.user_speaking == old(self).state.user_speaking,
            final(self).state.meta_latents == old(self).state.meta_latents,
            final(self).state.memory_consent == old(self).state.memory_consent,
            final(self).state.visual == old(self).state.visual,
            final(self).state.latents == old(self).state.latents,
            *final(self) == (Reactor {
                state: final(self).state,
                ..*old(self)
            }),
    {
        let replacement: Option<IntentState> = match &self.state.intent_state {
            IntentState::Forming(cands) => {
                match best_candidate(cands) {
                    Some(best) => Some(IntentState::Suspended(best)),
                    None => None,
                }
            },
            IntentState::Stable(c) => Some(IntentState::Suspended(c.clone())),
            _ => None,
        };
        match replacement {
            Some(s) => {
                proof {
                    assert(intent_state_ok(s));
                }
                self.state.reduce(StateDelta::AssessmentUpdate(s));
            },
            None => {},
        }
    }

    /// Create a fresh buffering segment if none is active.
    fn open_segment_if_idle(&mut self)
        requires
            state_ok(old(self).state),
            old(self).next_segment_id < u64::MAX,
        ensures
            state_ok(final(self).state),
            final(self).state.version >= old(self).state.version,
            final(self).state.active_outputs == old(self).state.active_outputs,
            final(self).state.memory_candidates == old(self).state.memory_candidates,
            final(self).state.long_term_memory == old(self).state.long_term_memory,
            final(self).state.user_speaking == old(self).state.user_speaking,
            final(self).state.meta_latents == old(self).state.meta_latents,
            final(self).state.memory_consent == old(self).state.memory_consent,
            final(self).state.visual == old(self).state.visual,
            final(self).state.latents == old(self).state.latents,
            final(self).next_segment_id <= old(self).next_segment_id + 1,
            *final(self) == (Reactor {
                state: final(self).state,
                next_segment_id: final(self).next_segment_id,
                ..*old(self)
            }),
    {
        if self.state.active_segment_id.is_none() {
            let id = self.next_segment_id;
            self.next_segment_id = self.next_segment_id + 1;
            let seg = AudioSegment::new(id, self.tick);
            self.state.reduce(StateDelta::AudioSegmentCreated(seg));
        }
    }

    /// Finalize the active segment, if any.
    fn close_active_segment(&mut self)
        requires
            state_ok(old(self).state),
        ensures
            state_ok(final(self).state),
            final(self).state.version >= old(self).state.version,
            final(self).state.active_outputs == old(self).state.active_outputs,
            final(self).state.memory_candidates == old(self).state.memory_candidates,
            final(self).state.long_term_memory == old(self).state.long_term_memory,
            final(self).state.user_speaking == old(self).state.user_speaking,
            final(self).state.meta_latents == old(self).state.meta_latents,
            final(self).state.memory_consent == old(self).state.memory_consent,
            final(self).state.visual == old(self).state.visual,
            final(self).state.latents == old(self).state.latents,
            *final(self) == (Reactor {
                state: final(self).state,
                ..*old(self)
            }),
    {
        match self.state.active_segment_id {
            Some(id) => {
                self.state.reduce(
                    StateDelta::AudioSegmentFinalized { segment_id: id, end_tick: self.tick },
                );
            },
            None => {},
        }
    }

    /// Whether the segment with this id is pending transcription.
    fn segment_is_pending(&self, id: u64) -> (r: bool)
        ensures
            r == spec_segment_pending(self.state.audio_segments@, id),
    {
        let n: usize = self.state.audio_segments.len();
        let mut i: usize = 0;
        proof {
            assert(self.state.audio_segments@.subrange(0, n as int) =~= self.state.audio_segments@);
        }
        while i < n
            invariant
                i <= n,
                n == self.state.audio_segments@.len(),
                spec_segment_pending(self.state.audio_segments@.subrange(i as int, n as int), id)
                    == spec_segment_pending(self.state.audio_segments@, id),
            decreases n - i,
        {
            proof {
                assert(self.state.audio_segments@.subrange(i as int, n as int).drop_first()
                    =~= self.state.audio_segments@.subrange(i + 1, n as int));
                assert(self.state.audio_segments@.subrange(i as int, n as int).first()
                    == self.state.audio_segments@[i as int]);
            }
            if self.state.audio_segments[i].id == id {
                return matches!(self.state.audio_segments[i].status, SegmentStatus::Pending);
            }
            i = i + 1;
        }
        proof {
            assert(self.state.audio_segments@.subrange(n as int, n as int)
                =~= Seq::<AudioSegment>::empty());
        }
        false
    }

    /// Phases two and three: classify events, discard user input while
    /// onboarding, run detection and segmentation, arbitration and memory
    /// ingestion, and collect the inputs and proposals the later phases
    /// work on. No outputs are touched; the only effects produced here are
    /// transcription requests and out-of-process speech requests for
    /// dialogue acts; with safe mode on, memory ingestion leaves no trace.
    #[verifier::rlimit(100)]
    fn preprocess(&mut self, events: Vec<Event>, effects: &mut Vec<SideEffect>) -> (r: (
        Vec<InputEvent>,
        Vec<(PlanningEpoch, Intent)>,
    ))
        requires
            reactor_ok(*old(self)),
            old(self).next_segment_id as int + events@.len() < u64::MAX,
        ensures
            reactor_ok(*final(self)),
            final(self).state.version >= old(self).state.version,
            final(self).state.active_outputs == old(self).state.active_outputs,
            final(self).tick == old(self).tick,
            final(self).mode == old(self).mode,
            final(self).config == old(self).config,
            final(self).last_planned_version == old(self).last_planned_version,
            final(self).monitor == old(self).monitor,
            forall|i: int|
                old(effects)@.len() <= i < final(effects)@.len()
                    ==> (((#[trigger] final(effects)@[i]) matches SideEffect::RequestTranscription {
                    segment_id,
                } && spec_any_transcription_request(events@, segment_id)) || (final(effects)@[i] matches SideEffect::RequestSpeech { intent, output_id })),
            forall|i: int|
                0 <= i < old(effects)@.len() ==> final(effects)@[i] == #[trigger] old(effects)@[i],
            final(effects)@.len() >= old(effects)@.len(),
            r.0@.len() > 0 ==> spec_any_input(events@),
            r.1@ == spec_plans_of(events@),
            old(self).mode == KernelMode::Onboarding ==> *final(self) == *old(self) && final(effects)@ == old(effects)@ && r.0@.len() == 0,
            old(self).config.safe_mode ==> final(self).state.memory_candidates == old(self).state.memory_candidates && final(self).state.long_term_memory == old(self).state.long_term_memory,
            final(self).state.meta_latents == old(self).state.meta_latents,
            !spec_any_consent_response(events@) ==> final(self).state.memory_consent == old(self).state.memory_consent,
            forall|i: int|
                0 <= i < r.0@.len() && crate::cancel::spec_is_stop(#[trigger] r.0@[i])
                    ==> spec_any_stop_text(events@),
            (old(self).mode == KernelMode::Active && spec_any_stop_text(events@)) ==> exists|
                i: int,
            | 0 <= i < r.0@.len() && crate::cancel::spec_is_stop(#[trigger] r.0@[i]),
            (old(self).mode == KernelMode::Active && spec_any_explicit_edge(
                events@,
                AudioSignal::SpeechStart,
            )) ==> exists|i: int|
                0 <= i < r.0@.len() && ((#[trigger] r.0@[i]).content matches InputContent::Audio(
                    sig,
                ) && sig == AudioSignal::SpeechStart),
            !spec_any_chunk(events@) ==> forall|i: int|
                0 <= i < r.0@.len() && ((#[trigger] r.0@[i]).content matches InputContent::Audio(
                    sig,
                )) ==> spec_any_explicit_edge(events@, r.0@[i].content->Audio_0),
            ({
                &&& old(self).mode == KernelMode::Active
                &&& events@.len() == 1
                &&& events@[0] matches Event::Input(e)
                &&& e.content matches InputContent::TranscriptionRequest { segment_id }
            }) ==> {
                let e = events@[0]->Input_0;
                let sid = e.content->TranscriptionRequest_segment_id;
                &&& (spec_segment_pending(old(self).state.audio_segments@, sid) ==> exists|i: int|
                    old(effects)@.len() <= i < final(effects)@.len() && ((#[trigger] final(effects)@[i]) matches SideEffect::RequestTranscription { segment_id: s2 } && s2
                        == sid))
                &&& (!spec_segment_pending(old(self).state.audio_segments@, sid) ==> final(effects)@ == old(effects)@)
            },
    {
        let mut inputs: Vec<InputEvent> = Vec::new();
        let mut plans: Vec<(PlanningEpoch, Intent)> = Vec::new();
        let mut src = events;
        let ghost orig = src@;
        let ghost base_effects = effects@;
        let n: usize = src.len();
        let mut idx: usize = 0;
        while idx < n
            invariant
                idx <= n,
                n == orig.len(),
                src@ == orig.subrange(idx as int, n as int),
                reactor_ok(*self),
                self.state.version >= old(self).state.version,
                self.state.active_outputs == old(self).state.active_outputs,
                self.tick == old(self).tick,
                self.mode == old(self).mode,
                self.config == old(self).config,
                self.last_planned_version == old(self).last_planned_version,
                self.monitor == old(self).monitor,
                self.next_segment_id as int <= old(self).next_segment_id + idx,
                old(self).next_segment_id as int + n < u64::MAX,
                forall|i: int|
                    base_effects.len() <= i < effects@.len()
                        ==> (((#[trigger] effects@[i]) matches SideEffect::RequestTranscription {
                        segment_id,
                    } && spec_any_transcription_request(orig, segment_id)) || (effects@[i] matches SideEffect::RequestSpeech {
                        intent,
                        output_id,
                    })),
                forall|i: int|
                    0 <= i < base_effects.len() ==> effects@[i] == #[trigger] base_effects[i],
                effects@.len() >= base_effects.len(),
                inputs@.len() > 0 ==> spec_any_input(orig),
                plans@ == spec_plans_of(orig.subrange(0, idx as int)),
                old(self).mode == KernelMode::Onboarding ==> *self == *old(self) && effects@
                    == base_effects && inputs@.len() == 0,
                old(self).config.safe_mode ==> self.state.memory_candidates == old(self).state.memory_candidates && self.state.long_term_memory == old(self).state.long_term_memory,
                self.state.meta_latents == old(self).state.meta_latents,
                !spec_any_consent_response(orig) ==> self.state.memory_consent == old(self).state.memory_consent,
                forall|i: int|
                    0 <= i < inputs@.len() && crate::cancel::spec_is_stop(#[trigger] inputs@[i])
                        ==> spec_any_stop_text(orig),
                (old(self).mode == KernelMode::Active && spec_any_stop_text(
                    orig.subrange(0, idx as int),
                )) ==> exists|i: int|
                    0 <= i < inputs@.len() && crate::cancel::spec_is_stop(#[trigger] inputs@[i]),
                (old(self).mode == KernelMode::Active && spec_any_explicit_edge(
                    orig.subrange(0, idx as int),
                    AudioSignal::SpeechStart,
                )) ==> exists|i: int|
                    0 <= i < inputs@.len() && ((#[trigger] inputs@[i]).content matches InputContent::Audio(
                        sig,
                    ) && sig == AudioSignal::SpeechStart),
                !spec_any_chunk(orig) ==> forall|i: int|
                    0 <= i < inputs@.len() && ((#[trigger] inputs@[i]).content matches InputContent::Audio(
                        sig,
                    )) ==> spec_any_explicit_edge(orig, inputs@[i].content->Audio_0),
                ({
                    &&& old(self).mode == KernelMode::Active
                    &&& orig.len() == 1
                    &&& orig[0] matches Event::Input(e)
                    &&& e.content matches InputContent::TranscriptionRequest { segment_id }
                }) ==> {
                    let e = orig[0]->Input_0;
                    let sid = e.content->TranscriptionRequest_segment_id;
                    &&& (idx == 0 ==> *self == *old(self) && effects@ == base_effects)
                    &&& (idx == 1 ==> ((spec_segment_pending(
                        old(self).state.audio_segments@,
                        sid,
                    ) ==> exists|i: int|
                        base_effects.len() <= i < effects@.len() && ((#[trigger] effects@[i]) matches SideEffect::RequestTranscription {
                            segment_id: s2,
                        } && s2 == sid)) && (!spec_segment_pending(
                        old(self).state.audio_segments@,
                        sid,
                    ) ==> effects@ == base_effects)))
                },
            decreases n - idx,
        {
            let ghost effects_before = effects@;
            let ghost self_before = *self;
            let ghost inputs_entry = inputs@;
            let event = src.remove(0);
            proof {
                assert(src@ =~= orig.subrange(idx + 1, n as int));
                assert(event == orig[idx as int]);
                assert(orig.subrange(0, idx + 1).drop_last() =~= orig.subrange(0, idx as int));
                assert(orig.subrange(0, idx + 1).last() == orig[idx as int]);
                lemma_any_stop_split(orig, idx as int);
                lemma_any_edge_split(orig, idx as int, AudioSignal::SpeechStart);
            }
            match event {
                Event::Input(inp) => {
                    proof {
                        assert(spec_any_input(orig)) by {
                            assert(orig[idx as int] matches Event::Input(e));
                        }
                    }
                    if matches!(self.mode, KernelMode::Onboarding) {
                        idx = idx + 1;
                        continue ;
                    }
                    match &inp.content {
                        InputContent::AudioStatus(status) => {
                            match status {
                                AudioStatus::PlaybackStarted => {
                                    self.audio_monitor.set_system_speaking(true);
                                },
                                AudioStatus::PlaybackEnded => {
                                    self.audio_monitor.set_system_speaking(false);
                                },
                            }
                        },
                        _ => {},
                    }
                    match inp.content {
                        InputContent::AudioChunk { frames, energy } => {
                            proof {
                                assert(spec_any_chunk(orig)) by {
                                    assert(orig[idx as int] matches Event::Input(e) && e.content
                                        matches InputContent::AudioChunk { frames, energy });
                                }
                            }
                            if frames.len() as u64 > u64::MAX / 1000 {
                                idx = idx + 1;
                                continue ;
                            }
                            let signal = self.audio_monitor.process(energy, frames.len());
                            match signal {
                                Some(sig) => {
                                    inputs.push(
                                        InputEvent {
                                            source: "vad".to_owned(),
                                            content: InputContent::Audio(sig),
                                        },
                                    );
                                    match sig {
                                        AudioSignal::SpeechStart => {
                                            self.open_segment_if_idle();
                                            self.interruption_suspend_assessment();
                                        },
                                        AudioSignal::SpeechEnd => {
                                            self.close_active_segment();
                                        },
                                    }
                                },
                                None => {},
                            }
                            match self.state.active_segment_id {
                                Some(seg_id) => {
                                    self.state.reduce(
                                        StateDelta::AudioFrameAppended {
                                            segment_id: seg_id,
                                            frames,
                                        },
                                    );
                                },
                                None => {},
                            }
                        },
                        InputContent::Audio(sig) => {
                            proof {
                                assert(spec_any_explicit_edge(orig, sig)) by {
                                    assert(orig[idx as int] matches Event::Input(e) && e.content
                                        matches InputContent::Audio(s) && s == sig);
                                }
                            }
                            match sig {
                                AudioSignal::SpeechStart => {
                                    self.open_segment_if_idle();
                                    self.interruption_suspend_assessment();
                                },
                                AudioSignal::SpeechEnd => {
                                    self.close_active_segment();
                                },
                            }
                            inputs.push(
                                InputEvent { source: inp.source, content: InputContent::Audio(sig) },
                            );
                            proof {
                                assert(inputs@[inputs@.len() - 1] == inp);
                                if sig == AudioSignal::SpeechStart {
                                    assert(exists|i: int|
                                        0 <= i < inputs@.len() && ((#[trigger] inputs@[i]).content
                                            matches InputContent::Audio(s) && s
                                            == AudioSignal::SpeechStart));
                                }
                            }
                        },
                        InputContent::Visual(crate::event::VisualSignal::PerceptUpdate {
                            hash,
                            distance,
                        }) => {
                            let current = self.state.visual.stability_score;
                            let stability = if distance < 5 {
                                crate::score::add_clamped(current, 1000)
                            } else {
                                crate::score::sub_clamped(current, 3000)
                            };
                            self.state.reduce(StateDelta::VisualStateUpdate { hash, stability });
                            inputs.push(
                                InputEvent {
                                    source: inp.source,
                                    content: InputContent::Visual(
                                        crate::event::VisualSignal::PerceptUpdate {
                                            hash,
                                            distance,
                                        },
                                    ),
                                },
                            );
                        },
                        InputContent::TranscriptionRequest { segment_id } => {
                            proof {
                                assert(spec_any_transcription_request(orig, segment_id)) by {
                                    assert(orig[idx as int] matches Event::Input(e) && e.content
                                        matches InputContent::TranscriptionRequest {
                                        segment_id: s,
                                    } && s == segment_id);
                                }
                                if orig.len() == 1 {
                                    assert(idx == 0);
                                    assert(orig[0]->Input_0 == inp);
                                    assert(inp.content->TranscriptionRequest_segment_id
                                        == segment_id);
                                }
                            }
                            if self.segment_is_pending(segment_id) {
                                self.state.reduce(
                                    StateDelta::AudioSegmentTranscribing(segment_id),
                                );
                                effects.push(SideEffect::RequestTranscription { segment_id });
                                proof {
                                    assert((effects@[effects@.len() - 1]) matches SideEffect::RequestTranscription {
                                        segment_id: s2,
                                    } && s2 == segment_id);
                                }
                            }
                        },
                        InputContent::ProvisionalText { content, confidence, source_id } => {
                            self.state.reduce(
                                StateDelta::AudioSegmentTranscribed {
                                    segment_id: source_id,
                                    text: content.clone(),
                                },
                            );
                            let assessed = self.arbitrator.assess(
                                content.as_str(),
                                source_id,
                                &self.state.intent_state,
                            );
                            let stable_candidate: Option<IntentCandidate> = match &assessed {
                                IntentState::Stable(c) => Some(c.clone()),
                                _ => None,
                            };
                            self.state.reduce(StateDelta::AssessmentUpdate(assessed));
                            match stable_candidate {
                                Some(cand) => {
                                    if !self.config.safe_mode {
                                        let mem_deltas = self.consolidator.process_intent(
                                            &cand,
                                            &self.state,
                                            &mut self.telemetry,
                                        );
                                        self.reduce_all(mem_deltas);
                                    }
                                    let intent_deltas = self.lhim.register_intent(
                                        &cand,
                                        &self.state,
                                        self.tick,
                                        &mut self.telemetry,
                                    );
                                    self.reduce_all(intent_deltas);
                                },
                                None => {},
                            }
                            let act = self.arbitrator.decide(&self.state.intent_state);
                            self.telemetry.record(
                                TelemetryEvent::DialogueAct { act: DialogueActKind::from(&act) },
                            );
                            let speech_planner = SpeechPlanner;
                            match speech_planner.plan(&act, self.config.safe_mode) {
                                Some(speech_intent) => {
                                    effects.push(
                                        SideEffect::RequestSpeech {
                                            intent: speech_intent,
                                            output_id: self.tick.frame,
                                        },
                                    );
                                },
                                None => {},
                            }
                            inputs.push(
                                InputEvent {
                                    source: inp.source,
                                    content: InputContent::ProvisionalText {
                                        content,
                                        confidence,
                                        source_id,
                                    },
                                },
                            );
                        },
                        InputContent::MemoryConsentResponse { key, state } => {
                            proof {
                                assert(spec_any_consent_response(orig)) by {
                                    assert(orig[idx as int] matches Event::Input(e) && e.content
                                        matches InputContent::MemoryConsentResponse {
                                        key: k2,
                                        state: s2,
                                    });
                                }
                            }
                            let memory_id = key.id();
                            self.state.reduce(
                                StateDelta::MemoryConsentResolved {
                                    key,
                                    state,
                                    resolved_at: self.tick,
                                },
                            );
                            self.telemetry.record(
                                TelemetryEvent::MemoryEvent {
                                    kind: MemoryEventKind::AttributesUpdated,
                                    memory_id,
                                },
                            );
                        },
                        other => {
                            inputs.push(InputEvent { source: inp.source, content: other });
                            proof {
                                assert(inputs@[inputs@.len() - 1] == inp);
                                if crate::cancel::spec_is_stop(inp) {
                                    assert(exists|i: int|
                                        0 <= i < inputs@.len() && crate::cancel::spec_is_stop(
                                            #[trigger] inputs@[i],
                                        ));
                                }
                            }
                        },
                    }
                },
                Event::PlanProposed(epoch, intent) => {
                    plans.push((epoch, intent));
                },
            }
            proof {
                if old(self).mode == KernelMode::Active && spec_any_stop_text(
                    orig.subrange(0, idx + 1),
                ) {
                    if spec_any_stop_text(orig.subrange(0, idx as int)) {
                        let k = choose|i: int|
                            0 <= i < inputs_entry.len() && crate::cancel::spec_is_stop(
                                #[trigger] inputs_entry[i],
                            );
                        assert(inputs@[k] == inputs_entry[k]);
                        assert(crate::cancel::spec_is_stop(inputs@[k]));
                    } else {
                        assert(orig[idx as int] matches Event::Input(e)
                            && crate::cancel::spec_is_stop(e));
                        assert(crate::cancel::spec_is_stop(inputs@[inputs@.len() - 1]));
                    }
                    assert(exists|i: int|
                        0 <= i < inputs@.len() && crate::cancel::spec_is_stop(
                            #[trigger] inputs@[i],
                        ));
                }
                if old(self).mode == KernelMode::Active && spec_any_explicit_edge(
                    orig.subrange(0, idx + 1),
                    AudioSignal::SpeechStart,
                ) {
                    if spec_any_explicit_edge(
                        orig.subrange(0, idx as int),
                        AudioSignal::SpeechStart,
                    ) {
                        let k = choose|i: int|
                            0 <= i < inputs_entry.len() && ((#[trigger] inputs_entry[i]).content
                                matches InputContent::Audio(sig) && sig
                                == AudioSignal::SpeechStart);
                        assert(inputs@[k] == inputs_entry[k]);
                        assert(inputs@[k].content matches InputContent::Audio(sig) && sig
                            == AudioSignal::SpeechStart);
                    } else {
                        assert(orig[idx as int] matches Event::Input(e) && e.content
                            matches InputContent::Audio(s) && s == AudioSignal::SpeechStart);
                        assert(inputs@[inputs@.len() - 1].content matches InputContent::Audio(
                            sig,
                        ) && sig == AudioSignal::SpeechStart);
                    }
                    assert(exists|i: int|
                        0 <= i < inputs@.len() && ((#[trigger] inputs@[i]).content
                            matches InputContent::Audio(sig) && sig
                            == AudioSignal::SpeechStart));
                }
            }
            idx = idx + 1;
        }
        proof {
            assert(orig.subrange(0, n as int) =~= orig);
        }
        (inputs, plans)
    }

    /// The tick step: the kernel's one operation. Advances the clock,
    /// drains the given events through the ordered phases, and returns
    /// everything the driver must do. Never blocks, never performs a system
    /// call. The contract ties the given events to the result: proposals
    /// are admitted exactly by the epoch window at the ingest version, a
    /// stop phrase or a speech start stops and cancels playback, audible
    /// output exists only under an allowing gate verdict, onboarding
    /// discards input without trace, and safe mode consolidates nothing.
    #[verifier::rlimit(100)]
    #[verifier::spinoff_prover]
    pub fn tick_step(&mut self, events: Vec<Event>) -> (outcome: TickOutcome)
        requires
            reactor_ok(*old(self)),
            old(self).tick.frame < u64::MAX,
            old(self).state.version < u64::MAX,
            events@.len() <= MAX_EVENTS_PER_TICK,
            old(self).next_segment_id as int + events@.len() < u64::MAX,
        ensures
            reactor_ok(*final(self)),
            final(self).tick.frame == old(self).tick.frame + 1,
            final(self).state.version > old(self).state.version,
            final(self).mode == old(self).mode,
            final(self).config == old(self).config,
            outcome.ingest_version@ <= final(self).state.version,
            outcome.planner_abort == (old(self).mode == KernelMode::Active && spec_any_input(
                events@,
            )),
            (outcome.planner_dispatch is Some) == (old(self).state.active_outputs@.len() == 0
                && old(self).last_planned_version != Some(outcome.ingest_version@)),
            outcome.planner_dispatch matches Some(s) ==> s.epoch.state_version
                == outcome.ingest_version@ && s.epoch.tick == final(self).tick
                && final(self).last_planned_version == Some(outcome.ingest_version@),
            outcome.planner_dispatch is None ==> final(self).last_planned_version == old(self).last_planned_version,
            outcome.gate_decision == crate::gate::spec_gate(
                SharedState { meta_latents: old(self).state.meta_latents, ..final(self).state },
            ),
            !(outcome.gate_decision is AllowPartial || outcome.gate_decision is AllowHard)
                ==> forall|i: int|
                0 <= i < outcome.effects@.len() ==> !((#[trigger] outcome.effects@[i]) matches SideEffect::SpawnAudio(
                    id,
                    t,
                )),
            (outcome.gate_decision is AllowPartial || outcome.gate_decision is AllowHard)
                ==> forall|j: int|
                0 <= j < spec_step_accepted(events@, outcome.ingest_version@).len() && ((
                #[trigger] spec_step_accepted(events@, outcome.ingest_version@)[j]) matches Intent::BeginResponse {
                    confidence,
                }) ==> (exists|i: int|
                    0 <= i < outcome.effects@.len() && ((#[trigger] outcome.effects@[i]) matches SideEffect::SpawnAudio(
                        id,
                        t,
                    ) && id == (OutputId {
                        tick: final(self).tick.frame,
                        ordinal: j as u16,
                    }))) && crate::state::spec_has_output(
                    final(self).state.active_outputs@,
                    OutputId { tick: final(self).tick.frame, ordinal: j as u16 },
                ),
            final(self).state.active_outputs@.len() <= old(self).state.active_outputs@.len()
                + spec_step_accepted(events@, outcome.ingest_version@).len(),
            forall|i: int|
                old(self).state.active_outputs@.len() <= i < final(self).state.active_outputs@.len() ==> (#[trigger] final(self).state.active_outputs@[i]).proposed_at == final(self).tick,
            forall|i: int|
                0 <= i < old(self).state.active_outputs@.len() ==> ((#[trigger] final(self).state.active_outputs@[i]) == old(self).state.active_outputs@[i] || final(self).state.active_outputs@[i] == spec_with_status(
                    old(self).state.active_outputs@[i],
                    crate::event::OutputStatus::Canceled,
                )),
            (exists|i: int|
                0 <= i < outcome.effects@.len() && (#[trigger] outcome.effects@[i]) matches SideEffect::StopAudio)
                ==> (spec_any_stop_text(events@) || ((spec_any_explicit_edge(
                events@,
                AudioSignal::SpeechStart,
            ) || spec_any_chunk(events@)) && old(self).state.active_outputs@.len() > 0)),
            (old(self).mode == KernelMode::Active && spec_any_stop_text(events@)) ==> exists|
                i: int,
            |
                0 <= i < outcome.effects@.len() && (#[trigger] outcome.effects@[i]) matches SideEffect::StopAudio,
            (old(self).mode == KernelMode::Active && spec_any_explicit_edge(
                events@,
                AudioSignal::SpeechStart,
            ) && old(self).state.active_outputs@.len() > 0) ==> exists|i: int|
                0 <= i < outcome.effects@.len() && (#[trigger] outcome.effects@[i]) matches SideEffect::StopAudio,
            (old(self).mode == KernelMode::Active && spec_any_explicit_edge(
                events@,
                AudioSignal::SpeechStart,
            )) ==> forall|i: int|
                0 <= i < old(self).state.active_outputs@.len() ==> (#[trigger] final(self).state.active_outputs@[i]).status is Canceled && final(self).state.active_outputs@[i].id == old(self).state.active_outputs@[i].id,
            (old(self).mode == KernelMode::Active && spec_any_stop_text(events@)) ==> forall|
                i: int,
            |
                0 <= i < old(self).state.active_outputs@.len() && spec_belongs_to(
                    old(self).state.active_outputs@[i],
                    "root_task"@,
                ) ==> (#[trigger] final(self).state.active_outputs@[i]).status is Canceled,
            (old(self).mode == KernelMode::Active && !spec_any_chunk(events@)
                && spec_any_explicit_edge(events@, AudioSignal::SpeechStart)
                && !spec_any_explicit_edge(events@, AudioSignal::SpeechEnd)) ==> final(self).state.user_speaking,
            old(self).mode == KernelMode::Onboarding ==> final(self).state.user_speaking == old(self).state.user_speaking && final(self).state.hesitation_detected == old(self).state.hesitation_detected && final(self).state.audio_segments == old(self).state.audio_segments && final(self).state.intent_state == old(self).state.intent_state && final(self).state.visual == (VisualState {
                hash: old(self).state.visual.hash,
                stability_score: spec_stability_after(old(self).state),
            }) && final(self).state.latents.slots@ == spec_decay_slots(
                old(self).state.latents.slots@,
            ) && (forall|i: int|
                0 <= i < outcome.effects@.len() ==> !((#[trigger] outcome.effects@[i]) matches SideEffect::StopAudio)
                    && !(outcome.effects@[i] matches SideEffect::RequestTranscription {
                    segment_id,
                }) && !(outcome.effects@[i] matches SideEffect::RequestSpeech {
                    intent,
                    output_id,
                })),
            old(self).config.safe_mode ==> final(self).state.memory_candidates == old(self).state.memory_candidates && final(self).state.long_term_memory == old(self).state.long_term_memory && (!spec_any_consent_response(events@)
                ==> final(self).state.memory_consent == old(self).state.memory_consent) && (forall|
                i: int,
            |
                0 <= i < outcome.effects@.len() ==> !((#[trigger] outcome.effects@[i]) matches SideEffect::AskMemoryConsent {
                    key,
                    prompt_id,
                })),
            ({
                &&& old(self).mode == KernelMode::Active
                &&& events@.len() == 1
                &&& events@[0] matches Event::Input(e)
                &&& e.content matches InputContent::TranscriptionRequest { segment_id }
            }) ==> {
                let e = events@[0]->Input_0;
                let sid = e.content->TranscriptionRequest_segment_id;
                &&& (spec_segment_pending(old(self).state.audio_segments@, sid) ==> exists|i: int|
                    0 <= i < outcome.effects@.len() && ((#[trigger] outcome.effects@[i]) matches SideEffect::RequestTranscription {
                        segment_id: s2,
                    } && s2 == sid))
                &&& (!spec_segment_pending(old(self).state.audio_segments@, sid) ==> forall|
                    i: int,
                |
                    0 <= i < outcome.effects@.len() ==> !((#[trigger] outcome.effects@[i]) matches SideEffect::RequestTranscription {
                        segment_id,
                    }))
            },
    {
        let ghost base_outputs = old(self).state.active_outputs@.len();
        let old_presence = self.state.presence;
        let any_input = has_input_event(&events);
        let planner_abort = matches!(self.mode, KernelMode::Active) && any_input;
        self.tick = self.tick.next();
        let ghost tick_now = self.tick;
        self.state.reduce(StateDelta::Tick(self.tick));
        let mut effects: Vec<SideEffect> = Vec::new();
        let ghost events_view = events@;
        let (inputs, plans) = self.preprocess(events, &mut effects);
        proof {
            assert(self.state.active_outputs@.len() == base_outputs);
        }
        let ghost mem_cands_mid = self.state.memory_candidates;
        let ghost visual_mid = self.state.visual;
        let ghost latents_mid = self.state.latents;
        let ghost consent_mid = self.state.memory_consent;
        let ghost ltm_mid = self.state.long_term_memory;
        let ghost segs_mid = self.state.audio_segments;
        let ghost intent_state_mid = self.state.intent_state;
        let ghost speaking_mid = self.state.user_speaking;
        let ghost hes_mid = self.state.hesitation_detected;
        let ghost onboarding = old(self).mode == KernelMode::Onboarding;
        let mut monitor_obs: Vec<SelfObservation> = Vec::new();
        let in_n: usize = inputs.len();
        let mut oi: usize = 0;
        while oi < in_n
            invariant
                oi <= in_n,
                in_n == inputs@.len(),
            decreases in_n - oi,
        {
            let mut obs = self.monitor.observe_raw(&inputs[oi], &self.state);
            monitor_obs.append(&mut obs);
            oi = oi + 1;
        }
        if !self.state.user_speaking && !self.audio_monitor.is_system_speaking() {
            self.telemetry.record(TelemetryEvent::SilencePeriod { duration_ticks: 1 });
        }
        let ghost preproc_effects_len = effects@.len();
        proof {
            assert(self.state.active_outputs == old(self).state.active_outputs);
        }
        let cancel_deltas = self.cancel_registry.process(&inputs);
        let has_cancellation = cancel_deltas.len() > 0;
        let ghost mut stop_effect_at: int = -1;
        if has_cancellation {
            proof {
                stop_effect_at = effects@.len() as int;
            }
            effects.push(SideEffect::StopAudio);
            self.telemetry.record(
                TelemetryEvent::Interruption {
                    source: InterruptionSource::ExplicitCancel,
                    cancel_latency_ticks: 0,
                },
            );
        }
        let mut cancel_src = cancel_deltas;
        let ghost cancel_total = cancel_src@.len();
        let ghost outs_before_cancel = self.state.active_outputs@;
        while cancel_src.len() > 0
            invariant
                cancel_src@.len() <= cancel_total,
                cancel_src@.len() < cancel_total ==> forall|i: int|
                    0 <= i < self.state.active_outputs@.len() && spec_belongs_to(
                        outs_before_cancel[i],
                        "root_task"@,
                    ) ==> (#[trigger] self.state.active_outputs@[i]).status is Canceled,
                forall|i: int|
                    0 <= i < self.state.active_outputs@.len() ==> (
                    #[trigger] self.state.active_outputs@[i]).parent_id
                        == outs_before_cancel[i].parent_id,
                state_ok(self.state),
                self.state.active_outputs@.len() == base_outputs,
                recorder_ok(self.telemetry),
                monitor_ok(self.monitor),
                self.audio_monitor.sample_rate > 0,
                self.mode == old(self).mode,
                self.config == old(self).config,
                self.tick == tick_now,
                self.state.version >= old(self).state.version,
                self.state.memory_candidates == mem_cands_mid,
                self.state.long_term_memory == ltm_mid,
                self.state.audio_segments == segs_mid,
                self.state.meta_latents == old(self).state.meta_latents,
                self.state.intent_state == intent_state_mid,
                self.state.user_speaking == speaking_mid,
                self.state.hesitation_detected == hes_mid,
                self.state.visual == visual_mid,
                self.state.latents == latents_mid,
                self.state.memory_consent == consent_mid,
                self.last_planned_version == old(self).last_planned_version,
                forall|i: int|
                    0 <= i < self.state.active_outputs@.len() ==> (
                    #[trigger] self.state.active_outputs@[i]).id
                        == old(self).state.active_outputs@[i].id
                        && self.state.active_outputs@[i].proposed_at
                        == old(self).state.active_outputs@[i].proposed_at,
                forall|i: int|
                    0 <= i < self.state.active_outputs@.len() ==> ((
                    #[trigger] self.state.active_outputs@[i]) == old(
                    self,
                ).state.active_outputs@[i] || self.state.active_outputs@[i] == spec_with_status(
                    old(self).state.active_outputs@[i],
                    crate::event::OutputStatus::Canceled,
                )),
                forall|i: int|
                    0 <= i < cancel_src@.len() ==> ((#[trigger] cancel_src@[i]) matches StateDelta::TaskCanceled(
                        t,
                    ) && t@ == "root_task"@),
            decreases cancel_src@.len(),
        {
            let d = cancel_src.remove(0);
            self.state.reduce(d);
        }
        let mut has_speech_start = false;
        let mut n_speech: usize = 0;
        let mut n_visual: usize = 0;
        let mut si: usize = 0;
        while si < in_n
            invariant
                si <= in_n,
                in_n == inputs@.len(),
                n_speech <= si,
                n_visual <= si,
                has_speech_start ==> exists|i: int|
                    0 <= i < inputs@.len() && ((#[trigger] inputs@[i]).content matches InputContent::Audio(
                        sig,
                    ) && sig == AudioSignal::SpeechStart),
                (exists|i: int|
                    0 <= i < si && ((#[trigger] inputs@[i]).content matches InputContent::Audio(
                        sig,
                    ) && sig == AudioSignal::SpeechStart)) ==> has_speech_start,
            decreases in_n - si,
        {
            match &inputs[si].content {
                InputContent::Audio(AudioSignal::SpeechStart) => {
                    has_speech_start = true;
                    n_speech = n_speech + 1;
                },
                InputContent::Visual(_) => {
                    n_visual = n_visual + 1;
                },
                _ => {},
            }
            si = si + 1;
        }
        proof {
            if onboarding {
                assert(!has_speech_start);
                assert(n_speech == 0 && n_visual == 0);
            }
        }
        let ghost speech_cancel = has_speech_start && base_outputs > 0;
        if has_speech_start && self.state.active_outputs.len() > 0 {
            proof {
                stop_effect_at = effects@.len() as int;
            }
            effects.push(SideEffect::StopAudio);
            self.telemetry.record(
                TelemetryEvent::Interruption {
                    source: InterruptionSource::AudioSpeechStart,
                    cancel_latency_ticks: 0,
                },
            );
            let mut ids: Vec<OutputId> = Vec::new();
            let on: usize = self.state.active_outputs.len();
            let mut ii: usize = 0;
            while ii < on
                invariant
                    ii <= on,
                    on == self.state.active_outputs@.len(),
                    ids@.len() == ii,
                    forall|i: int|
                        0 <= i < ii ==> #[trigger] ids@[i] == self.state.active_outputs@[i].id,
                decreases on - ii,
            {
                ids.push(self.state.active_outputs[ii].id);
                ii = ii + 1;
            }
            let mut ci: usize = 0;
            let idn: usize = ids.len();
            let ghost outs_pre_cancel = self.state.active_outputs@;
            while ci < idn
                invariant
                    ci <= idn,
                    idn == ids@.len(),
                    idn == base_outputs,
                    state_ok(self.state),
                    self.state.active_outputs@.len() == base_outputs,
                    recorder_ok(self.telemetry),
                    monitor_ok(self.monitor),
                    self.audio_monitor.sample_rate > 0,
                    self.mode == old(self).mode,
                    self.config == old(self).config,
                    self.tick == tick_now,
                    self.state.version >= old(self).state.version,
                    self.state.memory_candidates == mem_cands_mid,
                    self.state.long_term_memory == ltm_mid,
                    self.state.audio_segments == segs_mid,
                    self.state.meta_latents == old(self).state.meta_latents,
                    self.state.intent_state == intent_state_mid,
                    self.state.user_speaking == speaking_mid,
                    self.state.hesitation_detected == hes_mid,
                    self.last_planned_version == old(self).last_planned_version,
                    forall|i: int|
                        0 <= i < idn ==> #[trigger] ids@[i] == outs_pre_cancel[i].id,
                    forall|i: int|
                        0 <= i < base_outputs ==> (#[trigger] self.state.active_outputs@[i]).id
                            == outs_pre_cancel[i].id && self.state.active_outputs@[i].proposed_at
                            == outs_pre_cancel[i].proposed_at,
                    forall|i: int|
                        0 <= i < ci ==> (#[trigger] self.state.active_outputs@[i]).status
                            is Canceled,
                    forall|i: int|
                        0 <= i < base_outputs && outs_pre_cancel[i].status is Canceled ==> (
                        #[trigger] self.state.active_outputs@[i]).status is Canceled,
                    self.state.visual == visual_mid,
                    self.state.latents == latents_mid,
                    self.state.memory_consent == consent_mid,
                    forall|i: int|
                        0 <= i < self.state.active_outputs@.len() ==> ((
                        #[trigger] self.state.active_outputs@[i]) == old(
                        self,
                    ).state.active_outputs@[i] || self.state.active_outputs@[i]
                        == spec_with_status(
                        old(self).state.active_outputs@[i],
                        crate::event::OutputStatus::Canceled,
                    )),
                decreases idn - ci,
            {
                self.state.reduce(StateDelta::OutputCanceled(ids[ci]));
                ci = ci + 1;
            }
        }
        let ghost all_canceled = speech_cancel;
        proof {
            if all_canceled {
                assert(forall|i: int|
                    0 <= i < base_outputs ==> (#[trigger] self.state.active_outputs@[i]).status
                        is Canceled);
                assert(forall|i: int|
                    0 <= i < base_outputs ==> (#[trigger] self.state.active_outputs@[i]).id
                        == old(self).state.active_outputs@[i].id);
            }
            if has_cancellation || speech_cancel {
                assert(0 <= stop_effect_at < effects@.len());
                assert((effects@[stop_effect_at]) matches SideEffect::StopAudio);
            }
        }
        let interruption = has_cancellation || has_speech_start;
        if interruption {
            self.suspend_active_intents();
        }
        let ghost intents_after_suspend_clear = interruption ==> forall|k: int|
            0 <= k < self.state.active_intents@.len() ==> (#[trigger] self.state.active_intents@[k]).status != crate::lhim::IntentStatus::Active;
        self.apply_decay();
        if inputs.len() == 0 && !interruption {
            let ds = self.lhim.try_resume(&self.state, self.tick, &mut self.telemetry);
            self.reduce_all(ds);
        }
        let ghost outs_mid = self.state.active_outputs;
        let ghost speaking_pre9 = self.state.user_speaking;
        let mut inputs = inputs;
        let ghost inputs0 = inputs@;
        let in_total: usize = inputs.len();
        let mut done: usize = 0;
        proof {
            assert(inputs0.subrange(0, in_total as int) =~= inputs0);
            assert(inputs0.subrange(0, 0) =~= Seq::<InputEvent>::empty());
        }
        while done < in_total
            invariant
                done <= in_total,
                in_total == inputs0.len(),
                inputs@ == inputs0.subrange(done as int, in_total as int),
                onboarding ==> in_total == 0,
                state_ok(self.state),
                self.state.active_outputs == outs_mid,
                recorder_ok(self.telemetry),
                monitor_ok(self.monitor),
                self.audio_monitor.sample_rate > 0,
                self.mode == old(self).mode,
                self.config == old(self).config,
                self.tick == tick_now,
                self.state.version >= old(self).state.version,
                self.state.memory_candidates == mem_cands_mid,
                self.state.long_term_memory == ltm_mid,
                self.state.audio_segments == segs_mid,
                self.state.meta_latents == old(self).state.meta_latents,
                self.state.intent_state == intent_state_mid,
                self.state.user_speaking == spec_speaking_after(
                    speaking_pre9,
                    inputs0.subrange(0, done as int),
                ),
                self.state.hesitation_detected == hes_mid || !onboarding,
                self.state.visual == visual_mid,
                self.state.latents == latents_mid,
                self.state.memory_consent == consent_mid,
                self.last_planned_version == old(self).last_planned_version,
            decreases in_total - done,
        {
            let e = inputs.remove(0);
            proof {
                assert(e == inputs0[done as int]);
                assert(inputs0.subrange(0, done + 1).drop_last() =~= inputs0.subrange(
                    0,
                    done as int,
                ));
                assert(inputs0.subrange(0, done + 1).last() == inputs0[done as int]);
                assert(inputs@ =~= inputs0.subrange(done + 1, in_total as int));
            }
            self.state.reduce(StateDelta::InputReceived(e));
            done = done + 1;
        }
        proof {
            assert(inputs0.subrange(0, in_total as int) =~= inputs0);
        }
        let ghost speaking_post9 = self.state.user_speaking;
        let mut k: usize = 0;
        while k < n_speech
            invariant
                k <= n_speech,
                state_ok(self.state),
                self.state.active_outputs == outs_mid,
                recorder_ok(self.telemetry),
                monitor_ok(self.monitor),
                self.audio_monitor.sample_rate > 0,
                self.mode == old(self).mode,
                self.config == old(self).config,
                self.tick == tick_now,
                self.state.version >= old(self).state.version,
                self.state.memory_candidates == mem_cands_mid,
                self.state.long_term_memory == ltm_mid,
                self.state.audio_segments == segs_mid,
                self.state.meta_latents == old(self).state.meta_latents,
                self.state.intent_state == intent_state_mid,
                self.state.user_speaking == speaking_post9,
                self.state.hesitation_detected == hes_mid || !onboarding,
                self.state.visual == visual_mid,
                self.state.memory_consent == consent_mid,
                onboarding ==> n_speech == 0,
                onboarding ==> self.state.latents == latents_mid,
                self.last_planned_version == old(self).last_planned_version,
            decreases n_speech - k,
        {
            self.state.reduce(
                StateDelta::PresenceTransition(crate::presence::PresenceRequest::InputActivity),
            );
            let mut values: Vec<u32> = Vec::new();
            values.push(crate::score::UNIT);
            self.state.reduce(
                StateDelta::LatentUpdate {
                    slot: LatentSlot {
                        values,
                        confidence: 8000,
                        created_at: self.tick,
                        modality: Modality::Audio,
                        decay_rate: 1000,
                    },
                },
            );
            k = k + 1;
        }
        let mut k2: usize = 0;
        while k2 < n_visual
            invariant
                k2 <= n_visual,
                state_ok(self.state),
                self.state.active_outputs == outs_mid,
                recorder_ok(self.telemetry),
                monitor_ok(self.monitor),
                self.audio_monitor.sample_rate > 0,
                self.mode == old(self).mode,
                self.config == old(self).config,
                self.tick == tick_now,
                self.state.version >= old(self).state.version,
                self.state.memory_candidates == mem_cands_mid,
                self.state.long_term_memory == ltm_mid,
                self.state.audio_segments == segs_mid,
                self.state.meta_latents == old(self).state.meta_latents,
                self.state.intent_state == intent_state_mid,
                self.state.user_speaking == speaking_post9,
                self.state.hesitation_detected == hes_mid || !onboarding,
                self.state.visual == visual_mid,
                self.state.memory_consent == consent_mid,
                onboarding ==> n_visual == 0,
                onboarding ==> self.state.latents == latents_mid,
                self.last_planned_version == old(self).last_planned_version,
            decreases n_visual - k2,
        {
            let mut values: Vec<u32> = Vec::new();
            values.push(5000);
            self.state.reduce(
                StateDelta::LatentUpdate {
                    slot: LatentSlot {
                        values,
                        confidence: 8000,
                        created_at: self.tick,
                        modality: Modality::Visual,
                        decay_rate: 100,
                    },
                },
            );
            k2 = k2 + 1;
        }
        let ghost plans_view = plans@;
        let ghost ingest_version = self.state.version;
        proof {
            lemma_accepted_len(plans@, self.state.version);
            lemma_plans_len(events_view);
        }
        let intents = accept_proposals(plans, self.state.version);
        proof {
            assert(self.state.active_outputs@.len() == base_outputs);
            assert(self.last_planned_version == old(self).last_planned_version);
        }
        let mut planner_dispatch: Option<StateSnapshot> = None;
        if self.state.active_outputs.len() == 0 {
            let needs_plan = match self.last_planned_version {
                Some(v) => v != self.state.version,
                None => true,
            };
            if needs_plan {
                let context = self.lhim.get_context(&self.state);
                let snapshot = self.state.snapshot(self.tick, context);
                self.last_planned_version = Some(self.state.version);
                planner_dispatch = Some(snapshot);
            }
        }
        let ghost planned_after_dispatch = self.last_planned_version;
        proof {
            assert forall|i: int|
                0 <= i < effects@.len() implies !((#[trigger] effects@[i]) matches SideEffect::SpawnAudio(
                id,
                t,
            )) by {}
            assert forall|i: int|
                0 <= i < effects@.len() && ((#[trigger] effects@[i]) matches SideEffect::StopAudio)
                    implies (has_cancellation || speech_cancel) by {}
            if onboarding {
                assert forall|i: int|
                    0 <= i < effects@.len() implies !((#[trigger] effects@[i]) matches SideEffect::StopAudio)
                        && !(effects@[i] matches SideEffect::RequestTranscription { segment_id })
                        && !(effects@[i] matches SideEffect::RequestSpeech { intent, output_id })
                    by {}
            }
            if old(self).config.safe_mode {
                assert forall|i: int|
                    0 <= i < effects@.len() implies !((#[trigger] effects@[i]) matches SideEffect::AskMemoryConsent {
                        key,
                        prompt_id,
                    }) by {}
            }
        }
        let ghost latents_at_gate = self.state.latents;
        let ghost state_at_gate = self.state;
        let gate_decision = check_gate(&self.state);
        proof {
            assert(gate_decision == crate::gate::spec_gate(state_at_gate));
            assert(state_at_gate.meta_latents == old(self).state.meta_latents);
            assert(state_at_gate.user_speaking == speaking_post9);
        }
        let allow = matches!(gate_decision, CrystallizationDecision::AllowPartial) || matches!(
            gate_decision,
            CrystallizationDecision::AllowHard,
        );
        let mut intents = intents;
        let ghost accepted = intents@;
        let ghost effects_pre_sched = effects@;
        let mut ordinal_idx: usize = 0;
        while intents.len() > 0
            invariant
                intents@ == accepted.subrange(ordinal_idx as int, accepted.len() as int),
                ordinal_idx + intents@.len() == accepted.len(),
                accepted.len() <= MAX_EVENTS_PER_TICK,
                state_ok(self.state),
                recorder_ok(self.telemetry),
                self.state.version >= ingest_version,
                self.state.active_outputs@.len() >= base_outputs,
                self.state.active_outputs@.len() <= base_outputs + ordinal_idx,
                allow == (gate_decision is AllowPartial || gate_decision is AllowHard),
                forall|i: int|
                    0 <= i < base_outputs ==> #[trigger] self.state.active_outputs@[i]
                        == outs_mid@[i],
                forall|i: int|
                    base_outputs <= i < self.state.active_outputs@.len() ==> (
                    #[trigger] self.state.active_outputs@[i]).proposed_at == tick_now && (!allow
                        ==> self.state.active_outputs@[i].parent_id is Some),
                forall|i: int|
                    0 <= i < effects_pre_sched.len() ==> effects@[i]
                        == #[trigger] effects_pre_sched[i],
                effects@.len() >= effects_pre_sched.len(),
                !allow ==> forall|i: int|
                    0 <= i < effects@.len() ==> !((#[trigger] effects@[i]) matches SideEffect::SpawnAudio(
                        id,
                        t,
                    )),
                forall|i: int|
                    effects_pre_sched.len() <= i < effects@.len() ==> (((
                    #[trigger] effects@[i]) matches SideEffect::SpawnAudio(id, t) && id.tick
                        == tick_now.frame) || (effects@[i] matches SideEffect::Log(m))),
                forall|j: int|
                    0 <= j < ordinal_idx && ((#[trigger] accepted[j]) matches Intent::BeginResponse {
                        confidence,
                    }) && allow ==> (exists|i: int|
                        0 <= i < effects@.len() && ((#[trigger] effects@[i]) matches SideEffect::SpawnAudio(
                            id,
                            t,
                        ) && id == (OutputId { tick: tick_now.frame, ordinal: j as u16 })))
                        && crate::state::spec_has_output(
                        self.state.active_outputs@,
                        OutputId { tick: tick_now.frame, ordinal: j as u16 },
                    ),
                monitor_ok(self.monitor),
                self.audio_monitor.sample_rate > 0,
                self.mode == old(self).mode,
                self.config == old(self).config,
                self.tick == tick_now,
                self.state.memory_candidates == mem_cands_mid,
                self.state.long_term_memory == ltm_mid,
                self.state.audio_segments == segs_mid,
                self.state.meta_latents == old(self).state.meta_latents,
                self.state.latents == latents_at_gate,
                self.state.intent_state == intent_state_mid,
                self.state.user_speaking == speaking_post9,
                self.state.hesitation_detected == hes_mid || !onboarding,
                self.state.visual == visual_mid,
                self.state.memory_consent == consent_mid,
                forall|i: int|
                    0 <= i < effects@.len() && ((#[trigger] effects@[i]) matches SideEffect::StopAudio)
                        ==> (has_cancellation || speech_cancel),
                onboarding ==> forall|i: int|
                    0 <= i < effects@.len() ==> !((#[trigger] effects@[i]) matches SideEffect::StopAudio)
                        && !(effects@[i] matches SideEffect::RequestTranscription { segment_id })
                        && !(effects@[i] matches SideEffect::RequestSpeech { intent, output_id }),
                old(self).config.safe_mode ==> forall|i: int|
                    0 <= i < effects@.len() ==> !((#[trigger] effects@[i]) matches SideEffect::AskMemoryConsent {
                        key,
                        prompt_id,
                    }),
                self.last_planned_version == planned_after_dispatch,
            decreases intents@.len(),
        {
            let ghost effects_at_entry = effects@;
            let ghost outs_at_entry = self.state.active_outputs@;
            let intent = intents.remove(0);
            proof {
                assert(intent == accepted[ordinal_idx as int]);
                assert(intents@ =~= accepted.subrange(ordinal_idx + 1, accepted.len() as int));
            }
            let ordinal: u16 = ordinal_idx as u16;
            match intent {
                Intent::BeginResponse { confidence } => {
                    match gate_decision {
                        CrystallizationDecision::Deny => {},
                        CrystallizationDecision::Delay { ms } => {
                            let ticks: u64 = ms / TICK_MS + 1;
                            let (d, e) = self.scheduler.schedule(
                                Intent::Delay { ticks },
                                self.tick,
                                ordinal,
                            );
                            match d {
                                Some(delta) => {
                                    self.state.reduce(delta);
                                },
                                None => {},
                            }
                            match e {
                                Some(eff) => {
                                    effects.push(eff);
                                },
                                None => {},
                            }
                        },
                        _ => {
                            proof {
                                assert(allow);
                            }
                            let snapshot = extract_snapshot(&self.state);
                            let text = realize(&snapshot, &gate_decision);
                            let status = if matches!(
                                gate_decision,
                                CrystallizationDecision::AllowHard,
                            ) {
                                OutputStatus::HardCommit
                            } else {
                                OutputStatus::SoftCommit
                            };
                            let output_id = OutputId { tick: self.tick.frame, ordinal };
                            let output = Output {
                                id: output_id,
                                content: text.clone(),
                                status,
                                proposed_at: self.tick,
                                committed_at: None,
                                parent_id: None,
                            };
                            let ghost pre_outs2 = self.state.active_outputs@;
                            self.state.reduce(StateDelta::OutputProposed(output));
                            proof {
                                if crate::state::spec_has_output(pre_outs2, output_id) {
                                    assert(crate::state::spec_has_output(
                                        self.state.active_outputs@,
                                        output_id,
                                    ));
                                } else {
                                    assert(self.state.active_outputs@.last().id == output_id);
                                    assert(crate::state::spec_has_output(
                                        self.state.active_outputs@,
                                        output_id,
                                    ));
                                }
                            }
                            let kind = if matches!(status, OutputStatus::HardCommit) {
                                OutputEventKind::HardCommit
                            } else {
                                OutputEventKind::SoftCommit
                            };
                            self.telemetry.record(
                                TelemetryEvent::OutputLifecycle {
                                    output_id,
                                    event: kind,
                                    latency_ticks: 0,
                                },
                            );
                            effects.push(SideEffect::SpawnAudio(output_id, text));
                            proof {
                                assert(effects@[effects@.len() - 1] matches SideEffect::SpawnAudio(
                                    id,
                                    t,
                                ) && id == (OutputId {
                                    tick: tick_now.frame,
                                    ordinal: ordinal_idx as u16,
                                }));
                                assert(exists|i: int|
                                    0 <= i < effects@.len() && ((#[trigger] effects@[i]) matches SideEffect::SpawnAudio(
                                        id,
                                        t,
                                    ) && id == (OutputId {
                                        tick: tick_now.frame,
                                        ordinal: ordinal_idx as u16,
                                    })));
                                assert(crate::state::spec_has_output(
                                    self.state.active_outputs@,
                                    OutputId { tick: tick_now.frame, ordinal: ordinal_idx as u16 },
                                ));
                            }
                        },
                    }
                },
                other => {
                    let audible = matches!(other, Intent::AskClarification { .. }) || matches!(
                        other,
                        Intent::ReviseStatement { .. },
                    );
                    if !audible || allow {
                        let (d, e) = self.scheduler.schedule(other, self.tick, ordinal);
                        match d {
                            Some(delta) => {
                                let ghost pre_outs = self.state.active_outputs@;
                                self.state.reduce(delta);
                                proof {
                                    assert(forall|i: int|
                                        0 <= i < pre_outs.len()
                                            ==> #[trigger] self.state.active_outputs@[i]
                                            == pre_outs[i]);
                                }
                            },
                            None => {},
                        }
                        match e {
                            Some(eff) => {
                                effects.push(eff);
                            },
                            None => {},
                        }
                    }
                },
            }
            proof {
                assert forall|j: int|
                    0 <= j < ordinal_idx + 1 && ((#[trigger] accepted[j]) matches Intent::BeginResponse {
                        confidence,
                    }) && allow implies (exists|i: int|
                        0 <= i < effects@.len() && ((#[trigger] effects@[i]) matches SideEffect::SpawnAudio(
                            id,
                            t,
                        ) && id == (OutputId { tick: tick_now.frame, ordinal: j as u16 })))
                        && crate::state::spec_has_output(
                        self.state.active_outputs@,
                        OutputId { tick: tick_now.frame, ordinal: j as u16 },
                    ) by {
                    if j < ordinal_idx {
                        let k = choose|i: int|
                            0 <= i < effects_at_entry.len() && ((
                            #[trigger] effects_at_entry[i]) matches SideEffect::SpawnAudio(id, t)
                                && id == (OutputId { tick: tick_now.frame, ordinal: j as u16 }));
                        assert(effects@[k] == effects_at_entry[k]);
                        assert((effects@[k]) matches SideEffect::SpawnAudio(id, t) && id == (
                        OutputId { tick: tick_now.frame, ordinal: j as u16 }));
                        let k2 = choose|i: int|
                            0 <= i < outs_at_entry.len() && (#[trigger] outs_at_entry[i]).id == (
                            OutputId { tick: tick_now.frame, ordinal: j as u16 });
                        assert(self.state.active_outputs@[k2] == outs_at_entry[k2]);
                        assert(self.state.active_outputs@[k2].id == (OutputId {
                            tick: tick_now.frame,
                            ordinal: j as u16,
                        }));
                    }
                }
            }
            ordinal_idx = ordinal_idx + 1;
        }
        let ghost outputs_after_schedule = self.state.active_outputs;
        let ghost effects_post_sched = effects@;
        if !self.config.safe_mode {
            let mut mem_ds = self.consolidator.tick(self.tick, &self.state, &mut self.telemetry);
            let ghost consolidator_state = self.state;
            while mem_ds.len() > 0
                invariant
                    state_ok(self.state),
                    recorder_ok(self.telemetry),
                    self.state.active_outputs == outputs_after_schedule,
                    self.state.version >= ingest_version,
                    forall|i: int|
                        0 <= i < mem_ds@.len() ==> crate::consolidator::spec_tick_delta_justified(
                            #[trigger] mem_ds@[i],
                            consolidator_state,
                            self.tick,
                        ),
                    state_ok(consolidator_state),
                    monitor_ok(self.monitor),
                    self.audio_monitor.sample_rate > 0,
                    self.mode == old(self).mode,
                    self.config == old(self).config,
                    self.tick == tick_now,
                    self.state.audio_segments == segs_mid,
                    self.state.intent_state == intent_state_mid,
                    self.state.user_speaking == speaking_post9,
                    self.state.hesitation_detected == hes_mid || !onboarding,
                    self.state.meta_latents == old(self).state.meta_latents,
                    self.state.latents == latents_at_gate,
                    self.state.visual == visual_mid,
                    !old(self).config.safe_mode,
                    forall|i: int|
                        0 <= i < effects@.len() && ((#[trigger] effects@[i]) matches SideEffect::StopAudio)
                            ==> (has_cancellation || speech_cancel),
                    onboarding ==> forall|i: int|
                        0 <= i < effects@.len() ==> !((#[trigger] effects@[i]) matches SideEffect::StopAudio)
                            && !(effects@[i] matches SideEffect::RequestTranscription {
                            segment_id,
                        }) && !(effects@[i] matches SideEffect::RequestSpeech {
                            intent,
                            output_id,
                        }),
                    !(gate_decision is AllowPartial || gate_decision is AllowHard) ==> forall|
                        i: int,
                    |
                        0 <= i < effects@.len() ==> !((#[trigger] effects@[i]) matches SideEffect::SpawnAudio(
                            id,
                            t,
                        )),
                    forall|j: int|
                        0 <= j < accepted.len() && ((#[trigger] accepted[j]) matches Intent::BeginResponse {
                            confidence,
                        }) && (gate_decision is AllowPartial || gate_decision is AllowHard)
                        ==> (exists|i: int|
                            0 <= i < effects@.len() && ((#[trigger] effects@[i]) matches SideEffect::SpawnAudio(
                                id,
                                t,
                            ) && id == (OutputId { tick: tick_now.frame, ordinal: j as u16 })))
                            && crate::state::spec_has_output(
                            self.state.active_outputs@,
                            OutputId { tick: tick_now.frame, ordinal: j as u16 },
                        ),
                    self.last_planned_version == planned_after_dispatch,
                    forall|i: int|
                        0 <= i < effects_post_sched.len() ==> effects@[i]
                            == #[trigger] effects_post_sched[i],
                    effects@.len() >= effects_post_sched.len(),
                    forall|i: int|
                        effects_post_sched.len() <= i < effects@.len() ==> (
                        #[trigger] effects@[i]) matches SideEffect::AskMemoryConsent {
                            key,
                            prompt_id,
                        },
                decreases mem_ds@.len(),
            {
                let ghost effects_at_entry2 = effects@;
                let d = mem_ds.remove(0);
                match &d {
                    StateDelta::MemoryConsentAsked(key, _) => {
                        let prompt_id = key.id();
                        effects.push(SideEffect::AskMemoryConsent { key: *key, prompt_id });
                    },
                    _ => {},
                }
                proof {
                    lemma_justified_delta_ok(d, consolidator_state, self.tick);
                }
                self.state.reduce(d);
                proof {
                    assert forall|j: int|
                        0 <= j < accepted.len() && ((#[trigger] accepted[j]) matches Intent::BeginResponse {
                            confidence,
                        }) && (gate_decision is AllowPartial || gate_decision is AllowHard)
                        implies (exists|i: int|
                            0 <= i < effects@.len() && ((#[trigger] effects@[i]) matches SideEffect::SpawnAudio(
                                id,
                                t,
                            ) && id == (OutputId { tick: tick_now.frame, ordinal: j as u16 })))
                            && crate::state::spec_has_output(
                            self.state.active_outputs@,
                            OutputId { tick: tick_now.frame, ordinal: j as u16 },
                        ) by {
                        let k = choose|i: int|
                            0 <= i < effects_at_entry2.len() && ((
                            #[trigger] effects_at_entry2[i]) matches SideEffect::SpawnAudio(
                                id,
                                t,
                            ) && id == (OutputId { tick: tick_now.frame, ordinal: j as u16 }));
                        assert(effects@[k] == effects_at_entry2[k]);
                        assert((effects@[k]) matches SideEffect::SpawnAudio(id, t) && id == (
                        OutputId { tick: tick_now.frame, ordinal: j as u16 }));
                        let k2 = choose|i: int|
                            0 <= i < outputs_after_schedule@.len() && (
                            #[trigger] outputs_after_schedule@[i]).id == (OutputId {
                                tick: tick_now.frame,
                                ordinal: j as u16,
                            });
                        assert(self.state.active_outputs@[k2] == outputs_after_schedule@[k2]);
                        assert(self.state.active_outputs@[k2].id == (OutputId {
                            tick: tick_now.frame,
                            ordinal: j as u16,
                        }));
                    }
                }
            }
        }
        let mdelta = self.monitor.tick(self.tick.frame, &monitor_obs);
        match mdelta {
            Some(d) => {
                self.state.reduce(d);
            },
            None => {},
        }
        if self.state.presence != old_presence {
            self.telemetry.record(
                TelemetryEvent::PresenceTransition {
                    from: old_presence,
                    to: self.state.presence,
                    tick: self.tick,
                },
            );
        }
        proof {
            assert(self.state.latents == latents_at_gate);
            assert(self.state.user_speaking == speaking_post9);
            assert(self.state.visual == visual_mid);
            assert forall|i: int|
                0 <= i < base_outputs implies ((#[trigger] self.state.active_outputs@[i]) == old(self).state.active_outputs@[i] || self.state.active_outputs@[i] == spec_with_status(
                old(self).state.active_outputs@[i],
                crate::event::OutputStatus::Canceled,
            )) by {
                assert(self.state.active_outputs@[i] == outputs_after_schedule@[i]);
                assert(outputs_after_schedule@[i] == outs_mid@[i]);
            }
            if old(self).mode == KernelMode::Onboarding {
                assert(self.state.latents == latents_mid);
            }
            if old(self).config.safe_mode && !spec_any_consent_response(events_view) {
                assert(self.state.memory_consent == consent_mid);
            }
            assert(crate::gate::spec_gate(
                SharedState { meta_latents: old(self).state.meta_latents, ..self.state },
            ) == crate::gate::spec_gate(state_at_gate));
            assert(accepted == spec_step_accepted(events_view, ingest_version));
            if old(self).mode == KernelMode::Active && spec_any_stop_text(events_view) {
                assert(has_cancellation);
                assert((effects@[stop_effect_at]) matches SideEffect::StopAudio);
                assert forall|i: int|
                    0 <= i < base_outputs && spec_belongs_to(
                        old(self).state.active_outputs@[i],
                        "root_task"@,
                    ) implies (#[trigger] self.state.active_outputs@[i]).status is Canceled by {
                    assert(self.state.active_outputs@[i] == outputs_after_schedule@[i]);
                    assert(outputs_after_schedule@[i] == outs_mid@[i]);
                }
            }
            if old(self).mode == KernelMode::Active && spec_any_explicit_edge(
                events_view,
                AudioSignal::SpeechStart,
            ) {
                assert(has_speech_start);
                if base_outputs > 0 {
                    assert((effects@[stop_effect_at]) matches SideEffect::StopAudio);
                }
                assert forall|i: int|
                    0 <= i < base_outputs implies (#[trigger] self.state.active_outputs@[i]).status
                        is Canceled && self.state.active_outputs@[i].id == old(
                    self,
                ).state.active_outputs@[i].id by {
                    assert(self.state.active_outputs@[i] == outputs_after_schedule@[i]);
                    assert(outputs_after_schedule@[i] == outs_mid@[i]);
                }
            }
            if old(self).mode == KernelMode::Active && !spec_any_chunk(events_view)
                && spec_any_explicit_edge(events_view, AudioSignal::SpeechStart)
                && !spec_any_explicit_edge(events_view, AudioSignal::SpeechEnd) {
                assert forall|i: int|
                    0 <= i < inputs0.len() implies !((#[trigger] inputs0[i]).content matches InputContent::Audio(
                        sig,
                    ) && sig == AudioSignal::SpeechEnd) by {
                    if inputs0[i].content matches InputContent::Audio(sig2) {
                        assert(spec_any_explicit_edge(events_view, inputs0[i].content->Audio_0));
                    }
                }
                lemma_speaking_fold(speaking_pre9, inputs0);
                assert(self.state.user_speaking == speaking_post9);
            }
            if old(self).mode == KernelMode::Onboarding {
                assert(self.state.user_speaking == speaking_post9);
                assert(inputs0.len() == 0);
                assert(inputs0.subrange(0, 0) =~= inputs0);
                assert(speaking_post9 == speaking_pre9);
            }
        }
        TickOutcome {
            effects,
            planner_dispatch,
            planner_abort,
            gate_decision,
            ingest_version: Ghost(ingest_version),
        }
    }

    /// Interruption supremacy: suspend every active long-horizon intent at
    /// once. Afterwards no intent is active.
    #[verifier::rlimit(100)]
    fn suspend_active_intents(&mut self)
        requires
            reactor_ok(*old(self)),
        ensures
            reactor_ok(*final(self)),
            final(self).state.version >= old(self).state.version,
            final(self).state.active_outputs == old(self).state.active_outputs,
            final(self).state.audio_segments == old(self).state.audio_segments,
            final(self).state.intent_state == old(self).state.intent_state,
            final(self).state.user_speaking == old(self).state.user_speaking,
            final(self).state.hesitation_detected == old(self).state.hesitation_detected,
            final(self).state.memory_consent == old(self).state.memory_consent,
            final(self).state.long_term_memory == old(self).state.long_term_memory,
            final(self).state.memory_candidates == old(self).state.memory_candidates,
            final(self).state.meta_latents == old(self).state.meta_latents,
            final(self).state.visual == old(self).state.visual,
            final(self).state.latents == old(self).state.latents,
            forall|k: int|
                0 <= k < final(self).state.active_intents@.len() ==> (#[trigger] final(self).state.active_intents@[k]).status != crate::lhim::IntentStatus::Active,
            *final(self) == (Reactor {
                state: final(self).state,
                telemetry: final(self).telemetry,
                ..*old(self)
            }),
    {
        proof {
            crate::lhim::lemma_actives_cover(self.state.active_intents@);
        }
        let ghost pre_intents = self.state.active_intents@;
        let ds = self.lhim.handle_interruption(&self.state, self.tick, &mut self.telemetry);
        let ghost ds0 = ds@;
        let ghost total = ds0.len() as int;
        let mut src = ds;
        let total_n: usize = src.len();
        let mut applied: usize = 0;
        proof {
            assert(ds0.subrange(0, total) =~= ds0);
            assert forall|k: int|
                0 <= k < self.state.active_intents@.len() && (#[trigger] self.state.active_intents@[k]).status == crate::lhim::IntentStatus::Active implies exists|m: int|
                0 <= m < total && ((#[trigger] ds0[m]) matches StateDelta::LongHorizonIntentUpdate(u) && u.id == self.state.active_intents@[k].id) by {
                let m = choose|m: int|
                    0 <= m < crate::lhim::spec_actives(pre_intents).len() && crate::lhim::spec_actives(pre_intents)[m] == pre_intents[k];
                assert((ds0[m]) matches StateDelta::LongHorizonIntentUpdate(u)
                    && crate::lhim::spec_suspended_form(
                    crate::lhim::spec_actives(pre_intents)[m],
                    self.tick,
                    u,
                ));
            }
        }
        while src.len() > 0
            invariant
                applied + src@.len() == total,
                total == total_n,
                total == ds0.len(),
                src@ == ds0.subrange(applied as int, total),
                state_ok(self.state),
                self.state.version >= old(self).state.version,
                self.state.active_outputs == old(self).state.active_outputs,
                self.state.audio_segments == old(self).state.audio_segments,
                self.state.intent_state == old(self).state.intent_state,
                self.state.user_speaking == old(self).state.user_speaking,
                self.state.hesitation_detected == old(self).state.hesitation_detected,
                self.state.memory_consent == old(self).state.memory_consent,
                self.state.long_term_memory == old(self).state.long_term_memory,
                self.state.memory_candidates == old(self).state.memory_candidates,
                self.state.meta_latents == old(self).state.meta_latents,
                self.state.visual == old(self).state.visual,
                self.state.latents == old(self).state.latents,
                recorder_ok(self.telemetry),
                monitor_ok(self.monitor),
                self.audio_monitor.sample_rate > 0,
                *self == (Reactor { state: self.state, telemetry: self.telemetry, ..*old(self) }),
                forall|m: int|
                    0 <= m < total ==> ((#[trigger] ds0[m]) matches StateDelta::LongHorizonIntentUpdate(u)
                        && u.status == crate::lhim::IntentStatus::Suspended
                        && crate::score::score_ok(u.decay_score)),
                forall|k: int|
                    0 <= k < self.state.active_intents@.len() && (#[trigger] self.state.active_intents@[k]).status == crate::lhim::IntentStatus::Active ==> exists|m: int|
                        applied <= m < total && ((#[trigger] ds0[m]) matches StateDelta::LongHorizonIntentUpdate(u) && u.id == self.state.active_intents@[k].id),
            decreases src@.len(),
        {
            let ghost cur = self.state.active_intents@;
            let ghost src_before = src@;
            let d = src.remove(0);
            proof {
                assert(ds0.subrange(applied as int, total)[0] == ds0[applied as int]);
                assert(src_before[0] == ds0[applied as int]);
                assert(d == src_before[0]);
                assert(src@ == src_before.remove(0));
                assert forall|j: int| 0 <= j < src@.len() implies #[trigger] src@[j] == ds0[
                    applied + 1 + j] by {
                    assert(ds0.subrange(applied as int, total)[j + 1] == ds0[applied + 1 + j]);
                    assert(src@[j] == src_before[j + 1]);
                }
                assert(src@ =~= ds0.subrange(applied + 1, total));
            }
            self.state.reduce(d);
            proof {
                let u = ds0[applied as int]->LongHorizonIntentUpdate_0;
                assert forall|k: int|
                    0 <= k < self.state.active_intents@.len() && (#[trigger] self.state.active_intents@[k]).status == crate::lhim::IntentStatus::Active implies exists|m: int|
                        applied + 1 <= m < total && ((#[trigger] ds0[m]) matches StateDelta::LongHorizonIntentUpdate(u2) && u2.id == self.state.active_intents@[k].id) by {
                    if crate::lhim::spec_has_intent(cur, u.id) {
                        let i0 = choose|i: int|
                            {
                                &&& 0 <= i < cur.len()
                                &&& cur[i].id == u.id
                                &&& forall|j: int| 0 <= j < i ==> cur[j].id != u.id
                                &&& self.state.active_intents@.len() == cur.len()
                                &&& self.state.active_intents@[i] == u
                                &&& forall|j: int|
                                    0 <= j < self.state.active_intents@.len() && j != i
                                        ==> self.state.active_intents@[j] == cur[j]
                            };
                        assert(k != i0);
                        assert(self.state.active_intents@[k] == cur[k]);
                        let m = choose|m: int|
                            applied <= m < total && ((#[trigger] ds0[m]) matches StateDelta::LongHorizonIntentUpdate(u2) && u2.id == cur[k].id);
                        if m == applied {
                            assert(cur[k].id == u.id);
                            assert(cur[i0].id == u.id);
                            assert(false);
                        }
                    } else {
                        assert(self.state.active_intents@ == cur.push(u));
                        if k < cur.len() {
                            assert(self.state.active_intents@[k] == cur[k]);
                            let m = choose|m: int|
                                applied <= m < total && ((#[trigger] ds0[m]) matches StateDelta::LongHorizonIntentUpdate(u2) && u2.id == cur[k].id);
                            if m == applied {
                                assert(crate::lhim::spec_has_intent(cur, u.id));
                                assert(false);
                            }
                        } else {
                            assert(self.state.active_intents@[k] == u);
                            assert(false);
                        }
                    }
                }
            }
            applied = applied + 1;
        }
    }

    /// Apply the per-tick intent decay pass. Decay never activates an
    /// intent: a state with no active intent keeps none.
    #[verifier::rlimit(100)]
    fn apply_decay(&mut self)
        requires
            reactor_ok(*old(self)),
        ensures
            reactor_ok(*final(self)),
            final(self).state.version >= old(self).state.version,
            final(self).state.active_outputs == old(self).state.active_outputs,
            final(self).state.audio_segments == old(self).state.audio_segments,
            final(self).state.intent_state == old(self).state.intent_state,
            final(self).state.user_speaking == old(self).state.user_speaking,
            final(self).state.hesitation_detected == old(self).state.hesitation_detected,
            final(self).state.memory_consent == old(self).state.memory_consent,
            final(self).state.long_term_memory == old(self).state.long_term_memory,
            final(self).state.memory_candidates == old(self).state.memory_candidates,
            final(self).state.meta_latents == old(self).state.meta_latents,
            final(self).state.visual == old(self).state.visual,
            final(self).state.latents == old(self).state.latents,
            (forall|k: int|
                0 <= k < old(self).state.active_intents@.len() ==> (#[trigger] old(self).state.active_intents@[k]).status != crate::lhim::IntentStatus::Active)
                ==> forall|k: int|
                0 <= k < final(self).state.active_intents@.len() ==> (#[trigger] final(self).state.active_intents@[k]).status != crate::lhim::IntentStatus::Active,
            *final(self) == (Reactor {
                state: final(self).state,
                telemetry: final(self).telemetry,
                ..*old(self)
            }),
    {
        proof {
            crate::lhim::lemma_tick_emitting_cover(self.state.active_intents@, self.tick);
        }
        let ghost pre_intents = self.state.active_intents@;
        let ghost no_active = forall|k: int|
            0 <= k < pre_intents.len() ==> (#[trigger] pre_intents[k]).status != crate::lhim::IntentStatus::Active;
        let ds = self.lhim.tick(self.tick, &self.state, &mut self.telemetry);
        let ghost ds0 = ds@;
        let ghost total = ds0.len() as int;
        proof {
            if no_active {
                assert forall|m: int|
                    0 <= m < total implies ((#[trigger] ds0[m]) matches StateDelta::LongHorizonIntentUpdate(u)
                        && u.status != crate::lhim::IntentStatus::Active) by {
                    let x = crate::lhim::spec_tick_emitting(pre_intents, self.tick)[m];
                    let j = choose|j: int| 0 <= j < pre_intents.len() && x == pre_intents[j];
                    assert(pre_intents[j].status != crate::lhim::IntentStatus::Active);
                }
            }
        }
        let mut src = ds;
        let total_n: usize = src.len();
        let mut applied: usize = 0;
        proof {
            assert(ds0.subrange(0, total) =~= ds0);
        }
        while src.len() > 0
            invariant
                applied + src@.len() == total,
                total == total_n,
                total == ds0.len(),
                src@ == ds0.subrange(applied as int, total),
                state_ok(self.state),
                self.state.version >= old(self).state.version,
                self.state.active_outputs == old(self).state.active_outputs,
                self.state.audio_segments == old(self).state.audio_segments,
                self.state.intent_state == old(self).state.intent_state,
                self.state.user_speaking == old(self).state.user_speaking,
                self.state.hesitation_detected == old(self).state.hesitation_detected,
                self.state.memory_consent == old(self).state.memory_consent,
                self.state.long_term_memory == old(self).state.long_term_memory,
                self.state.memory_candidates == old(self).state.memory_candidates,
                self.state.meta_latents == old(self).state.meta_latents,
                self.state.visual == old(self).state.visual,
                self.state.latents == old(self).state.latents,
                recorder_ok(self.telemetry),
                monitor_ok(self.monitor),
                self.audio_monitor.sample_rate > 0,
                *self == (Reactor { state: self.state, telemetry: self.telemetry, ..*old(self) }),
                forall|m: int|
                    0 <= m < total ==> ((#[trigger] ds0[m]) matches StateDelta::LongHorizonIntentUpdate(u)
                        && crate::score::score_ok(u.decay_score)),
                no_active ==> forall|m: int|
                    0 <= m < total ==> ((#[trigger] ds0[m]) matches StateDelta::LongHorizonIntentUpdate(u)
                        && u.status != crate::lhim::IntentStatus::Active),
                no_active ==> forall|k: int|
                    0 <= k < self.state.active_intents@.len() ==> (#[trigger] self.state.active_intents@[k]).status != crate::lhim::IntentStatus::Active,
            decreases src@.len(),
        {
            let ghost cur = self.state.active_intents@;
            let ghost src_before = src@;
            let d = src.remove(0);
            proof {
                assert(ds0.subrange(applied as int, total)[0] == ds0[applied as int]);
                assert(src_before[0] == ds0[applied as int]);
                assert(d == src_before[0]);
                assert(src@ == src_before.remove(0));
                assert forall|j: int| 0 <= j < src@.len() implies #[trigger] src@[j] == ds0[
                    applied + 1 + j] by {
                    assert(ds0.subrange(applied as int, total)[j + 1] == ds0[applied + 1 + j]);
                    assert(src@[j] == src_before[j + 1]);
                }
                assert(src@ =~= ds0.subrange(applied + 1, total));
            }
            self.state.reduce(d);
            proof {
                if no_active {
                    let u = ds0[applied as int]->LongHorizonIntentUpdate_0;
                    assert forall|k: int|
                        0 <= k < self.state.active_intents@.len() implies (#[trigger] self.state.active_intents@[k]).status != crate::lhim::IntentStatus::Active by {
                        if crate::lhim::spec_has_intent(cur, u.id) {
                            let i0 = choose|i: int|
                                {
                                    &&& 0 <= i < cur.len()
                                    &&& cur[i].id == u.id
                                    &&& forall|j: int| 0 <= j < i ==> cur[j].id != u.id
                                    &&& self.state.active_intents@.len() == cur.len()
                                    &&& self.state.active_intents@[i] == u
                                    &&& forall|j: int|
                                        0 <= j < self.state.active_intents@.len() && j != i
                                            ==> self.state.active_intents@[j] == cur[j]
                                };
                            if k != i0 {
                                assert(self.state.active_intents@[k] == cur[k]);
                            }
                        } else {
                            assert(self.state.active_intents@ == cur.push(u));
                            if k < cur.len() {
                                assert(self.state.active_intents@[k] == cur[k]);
                            } else {
                                assert(self.state.active_intents@[k] == u);
                            }
                        }
                    }
                }
            }
            applied = applied + 1;
        }
    }

    /// Reduce a list of manager deltas in order. Outputs, segments, the
    /// assessment and the speech flags are untouched; a list of intent
    /// updates alone also leaves all memory untouched.
    fn reduce_all(&mut self, deltas: Vec<StateDelta>)
        requires
            state_ok(old(self).state),
            forall|i: int|
                0 <= i < deltas@.len() ==> spec_delta_manager(#[trigger] deltas@[i])
                    && crate::state::delta_ok(deltas@[i]),
        ensures
            state_ok(final(self).state),
            final(self).state.version >= old(self).state.version,
            final(self).state.active_outputs == old(self).state.active_outputs,
            final(self).state.audio_segments == old(self).state.audio_segments,
            final(self).state.intent_state == old(self).state.intent_state,
            final(self).state.user_speaking == old(self).state.user_speaking,
            final(self).state.hesitation_detected == old(self).state.hesitation_detected,
            final(self).state.memory_consent == old(self).state.memory_consent,
            final(self).state.long_term_memory == old(self).state.long_term_memory,
            final(self).state.meta_latents == old(self).state.meta_latents,
            final(self).state.visual == old(self).state.visual,
            final(self).state.latents == old(self).state.latents,
            (forall|i: int|
                0 <= i < deltas@.len() ==> (#[trigger] deltas@[i]) matches StateDelta::LongHorizonIntentUpdate(
                    u,
                )) ==> final(self).state.memory_candidates == old(self).state.memory_candidates,
            *final(self) == (Reactor { state: final(self).state, ..*old(self) }),
    {
        let mut src = deltas;
        let ghost all_intents = forall|i: int|
            0 <= i < deltas@.len() ==> (#[trigger] deltas@[i]) matches StateDelta::LongHorizonIntentUpdate(
                u,
            );
        while src.len() > 0
            invariant
                state_ok(self.state),
                self.state.version >= old(self).state.version,
                self.state.active_outputs == old(self).state.active_outputs,
                self.state.audio_segments == old(self).state.audio_segments,
                self.state.intent_state == old(self).state.intent_state,
                self.state.user_speaking == old(self).state.user_speaking,
                self.state.hesitation_detected == old(self).state.hesitation_detected,
                self.state.memory_consent == old(self).state.memory_consent,
                self.state.long_term_memory == old(self).state.long_term_memory,
                self.state.meta_latents == old(self).state.meta_latents,
                self.state.visual == old(self).state.visual,
                self.state.latents == old(self).state.latents,
                all_intents ==> self.state.memory_candidates == old(self).state.memory_candidates,
                all_intents ==> forall|i: int|
                    0 <= i < src@.len() ==> (#[trigger] src@[i]) matches StateDelta::LongHorizonIntentUpdate(
                        u,
                    ),
                *self == (Reactor { state: self.state, ..*old(self) }),
                forall|i: int|
                    0 <= i < src@.len() ==> spec_delta_manager(#[trigger] src@[i])
                        && crate::state::delta_ok(src@[i]),
            decreases src@.len(),
        {
            let d = src.remove(0);
            self.state.reduce(d);
        }
    }
}

} // verus!
