//! Long-horizon intents: user goals persisted across turns, decaying over
//! time unless reinforced.

use vstd::prelude::*;
use crate::intent::{IntentCandidate, IntentHypothesis};
use crate::planner::IntentContext;
use crate::score::{Score, UNIT, score_ok, spec_decay_pow, spec_decay_step};
use crate::state::{SharedState, StateDelta, state_ok};
use crate::telemetry::{TelemetryRecorder, recorder_ok};
use crate::tick::Tick;

verus! {

/// Identifier of a long-horizon intent; equal to the id of the stable
/// candidate it was registered from, so recurrence reinforces instead of
/// duplicating.
pub type IntentId = u64;

/// The lifecycle of a long-horizon intent.
#[derive(Debug, Clone, Copy, PartialEq, Eq, Structural)]
pub enum IntentStatus {
    Active,
    /// Interrupted; may resume.
    Suspended,
    /// Decayed low; still resumable until invalidated.
    Dormant,
    Completed,
    /// Terminal.
    Invalidated,
}

/// A user goal tracked across turns.
#[derive(Debug)]
pub struct LongHorizonIntent {
    pub id: IntentId,
    pub hypothesis: IntentHypothesis,
    pub source_symbol_ids: Vec<u64>,
    pub created_at: Tick,
    pub last_active_at: Tick,
    /// The instant decay was last applied; decay is a function of the gap
    /// since this.
    pub last_updated_at: Tick,
    pub suspended_at: Option<Tick>,
    /// Falls from one toward zero unless reinforced.
    pub decay_score: Score,
    pub status: IntentStatus,
}

/// Content equality for long-horizon intents: every field agrees, the symbol
/// list compared element for element.
pub open spec fn lh_eq(a: LongHorizonIntent, b: LongHorizonIntent) -> bool {
    &&& a.id == b.id
    &&& a.hypothesis == b.hypothesis
    &&& a.source_symbol_ids@ == b.source_symbol_ids@
    &&& a.created_at == b.created_at
    &&& a.last_active_at == b.last_active_at
    &&& a.last_updated_at == b.last_updated_at
    &&& a.suspended_at == b.suspended_at
    &&& a.decay_score == b.decay_score
    &&& a.status == b.status
}

impl Clone for LongHorizonIntent {
    /// Clones preserve the intent's content.
    fn clone(&self) -> (r: Self)
        ensures
            lh_eq(r, *self),
    {
        let source_symbol_ids = self.source_symbol_ids.clone();
        proof {
            assert(source_symbol_ids@ =~= self.source_symbol_ids@);
        }
        LongHorizonIntent {
            id: self.id,
            hypothesis: self.hypothesis,
            source_symbol_ids,
            created_at: self.created_at,
            last_active_at: self.last_active_at,
            last_updated_at: self.last_updated_at,
            suspended_at: self.suspended_at,
            decay_score: self.decay_score,
            status: self.status,
        }
    }
}

pub open spec fn lh_intent_ok(i: LongHorizonIntent) -> bool {
    score_ok(i.decay_score)
}

/// Per-tick multiplicative decay rate of an intent's score.
pub const DECAY_RATE: u32 = 9997;

/// Below this score an intent goes dormant.
pub const DORMANCY_THRESHOLD: u32 = 3000;

/// Below this score an intent is invalidated, terminally.
pub const INVALIDATION_THRESHOLD: u32 = 1000;

/// Only suspended or dormant intents above this score may resume.
pub const RESUME_THRESHOLD: u32 = 6000;

/// The multiplicative penalty a suspension applies at once.
pub const SUSPEND_PENALTY: u32 = 8000;

/// What resumption adds back to the score, clamped to one.
pub const RESUME_BOOST: u32 = 1000;

/// Score changes smaller than this alone do not warrant a delta.
pub const EMIT_EPSILON: u32 = 10;

/// An intent's score floor for backing the planner's context view.
pub const CONTEXT_FLOOR: u32 = 3000;

/// The suspended form of an intent: status and stamp change, the score takes
/// the immediate suspension penalty, everything else carries over.
pub open spec fn spec_suspended_form(x: LongHorizonIntent, now: Tick, u: LongHorizonIntent) -> bool {
    &&& u.id == x.id
    &&& u.hypothesis == x.hypothesis
    &&& u.source_symbol_ids@ == x.source_symbol_ids@
    &&& u.created_at == x.created_at
    &&& u.last_active_at == x.last_active_at
    &&& u.last_updated_at == x.last_updated_at
    &&& u.suspended_at == Some(now)
    &&& u.decay_score as nat == spec_decay_step(x.decay_score as nat, SUSPEND_PENALTY as nat)
    &&& u.status == IntentStatus::Suspended
}

/// The suspended form an intent takes when the focus merely shifts to a new
/// registration: status and stamp change, the score is untouched.
pub open spec fn spec_shifted_form(x: LongHorizonIntent, now: Tick, u: LongHorizonIntent) -> bool {
    &&& u.id == x.id
    &&& u.hypothesis == x.hypothesis
    &&& u.source_symbol_ids@ == x.source_symbol_ids@
    &&& u.created_at == x.created_at
    &&& u.last_active_at == x.last_active_at
    &&& u.last_updated_at == x.last_updated_at
    &&& u.suspended_at == Some(now)
    &&& u.decay_score == x.decay_score
    &&& u.status == IntentStatus::Suspended
}

/// The active intents of a list, in order.
pub open spec fn spec_actives(pre: Seq<LongHorizonIntent>) -> Seq<LongHorizonIntent>
    decreases pre.len(),
{
    if pre.len() == 0 {
        Seq::empty()
    } else {
        let rest = spec_actives(pre.drop_last());
        if pre.last().status == IntentStatus::Active {
            rest.push(pre.last())
        } else {
            rest
        }
    }
}

/// Every active intent of a list appears among its actives-in-order.
pub proof fn lemma_actives_cover(pre: Seq<LongHorizonIntent>)
    ensures
        forall|j: int|
            0 <= j < pre.len() && (#[trigger] pre[j]).status == IntentStatus::Active ==> exists|
                m: int,
            | 0 <= m < spec_actives(pre).len() && spec_actives(pre)[m] == pre[j],
    decreases pre.len(),
{
    if pre.len() > 0 {
        lemma_actives_cover(pre.drop_last());
        assert forall|j: int|
            0 <= j < pre.len() && (#[trigger] pre[j]).status == IntentStatus::Active implies exists|
            m: int,
        | 0 <= m < spec_actives(pre).len() && spec_actives(pre)[m] == pre[j] by {
            if j < pre.len() - 1 {
                assert(pre.drop_last()[j] == pre[j]);
                let m = choose|m: int|
                    0 <= m < spec_actives(pre.drop_last()).len() && spec_actives(pre.drop_last())[m]
                        == pre[j];
                assert(spec_actives(pre)[m] == spec_actives(pre.drop_last())[m]);
            } else {
                assert(spec_actives(pre).last() == pre[j]);
            }
        }
    }
}

/// Every intent the per-tick pass emits a delta for is an intent of the list.
pub proof fn lemma_tick_emitting_cover(pre: Seq<LongHorizonIntent>, now: Tick)
    ensures
        forall|m: int|
            0 <= m < spec_tick_emitting(pre, now).len() ==> exists|j: int|
                0 <= j < pre.len() && #[trigger] spec_tick_emitting(pre, now)[m] == pre[j],
    decreases pre.len(),
{
    if pre.len() > 0 {
        lemma_tick_emitting_cover(pre.drop_last(), now);
        assert forall|m: int|
            0 <= m < spec_tick_emitting(pre, now).len() implies exists|j: int|
            0 <= j < pre.len() && #[trigger] spec_tick_emitting(pre, now)[m] == pre[j] by {
            if m < spec_tick_emitting(pre.drop_last(), now).len() {
                let j = choose|j: int|
                    0 <= j < pre.drop_last().len() && spec_tick_emitting(pre.drop_last(), now)[m]
                        == pre.drop_last()[j];
                assert(spec_tick_emitting(pre, now)[m] == spec_tick_emitting(
                    pre.drop_last(),
                    now,
                )[m]);
                assert(pre.drop_last()[j] == pre[j]);
            } else {
                assert(spec_tick_emitting(pre, now)[m] == pre[pre.len() - 1]);
            }
        }
    }
}

/// The registry of long-horizon intents: registration, suspension, decay and
/// silent resumption. Pure: it reads state and proposes deltas.
#[derive(Debug)]
pub struct LongHorizonIntentManager;

/// The registered form of a fresh intent from a stable candidate.
pub open spec fn spec_fresh_intent(c: IntentCandidate, now: Tick, u: LongHorizonIntent) -> bool {
    &&& u.id == c.id
    &&& u.hypothesis == c.hypothesis
    &&& u.source_symbol_ids@ == c.source_symbol_ids@
    &&& u.created_at == now
    &&& u.last_active_at == now
    &&& u.last_updated_at == now
    &&& u.suspended_at is None
    &&& u.decay_score == UNIT
    &&& u.status == IntentStatus::Active
}

/// The reinforced form of an existing intent: score reset to one, active,
/// restamped.
pub open spec fn spec_reinforced_form(x: LongHorizonIntent, now: Tick, u: LongHorizonIntent) -> bool {
    &&& u.id == x.id
    &&& u.hypothesis == x.hypothesis
    &&& u.source_symbol_ids@ == x.source_symbol_ids@
    &&& u.created_at == x.created_at
    &&& u.last_active_at == now
    &&& u.last_updated_at == now
    &&& u.suspended_at == x.suspended_at
    &&& u.decay_score == UNIT
    &&& u.status == IntentStatus::Active
}

/// Whether some intent in the list carries this id.
pub open spec fn spec_has_intent(pre: Seq<LongHorizonIntent>, id: IntentId) -> bool {
    exists|i: int| 0 <= i < pre.len() && pre[i].id == id
}

/// Whether some intent in the list is active.
pub open spec fn spec_any_active(pre: Seq<LongHorizonIntent>) -> bool {
    exists|i: int| 0 <= i < pre.len() && pre[i].status == IntentStatus::Active
}

/// Whether some active intent clears the context floor.
pub open spec fn spec_any_strong_active(pre: Seq<LongHorizonIntent>) -> bool {
    exists|i: int|
        0 <= i < pre.len() && pre[i].status == IntentStatus::Active && pre[i].decay_score
            > CONTEXT_FLOOR
}

/// An intent's score after `gap` ticks of decay.
pub open spec fn spec_decayed_score(score: u32, gap: u64) -> nat {
    spec_decay_pow(score as nat, DECAY_RATE as nat, gap as nat)
}

/// The status an intent falls to at a given score: invalidated below the
/// terminal threshold, dormant below the dormancy threshold, else unchanged.
pub open spec fn spec_status_at(score: nat, status: IntentStatus) -> IntentStatus {
    if score < INVALIDATION_THRESHOLD {
        IntentStatus::Invalidated
    } else if score < DORMANCY_THRESHOLD {
        IntentStatus::Dormant
    } else {
        status
    }
}

/// The decay gap an intent has accumulated by `now`.
pub open spec fn spec_gap(x: LongHorizonIntent, now: Tick) -> u64 {
    if now.frame >= x.last_updated_at.frame {
        (now.frame - x.last_updated_at.frame) as u64
    } else {
        0
    }
}

/// Whether the per-tick pass emits a delta for this intent: it is live, and
/// either its status falls or its score moved by more than the epsilon.
pub open spec fn spec_tick_emits(x: LongHorizonIntent, now: Tick) -> bool {
    &&& x.status != IntentStatus::Completed
    &&& x.status != IntentStatus::Invalidated
    &&& {
        let ns = spec_decayed_score(x.decay_score, spec_gap(x, now));
        spec_status_at(ns, x.status) != x.status || x.decay_score - ns > EMIT_EPSILON
    }
}

/// The decayed form of an intent at `now`.
pub open spec fn spec_ticked_form(x: LongHorizonIntent, now: Tick, u: LongHorizonIntent) -> bool {
    let ns = spec_decayed_score(x.decay_score, spec_gap(x, now));
    &&& u.id == x.id
    &&& u.hypothesis == x.hypothesis
    &&& u.source_symbol_ids@ == x.source_symbol_ids@
    &&& u.created_at == x.created_at
    &&& u.last_active_at == x.last_active_at
    &&& u.last_updated_at == (if spec_gap(x, now) > 0 {
        now
    } else {
        x.last_updated_at
    })
    &&& u.suspended_at == x.suspended_at
    &&& u.decay_score as nat == ns
    &&& u.status == spec_status_at(ns, x.status)
}

/// The live intents the per-tick pass emits deltas for, in order.
pub open spec fn spec_tick_emitting(pre: Seq<LongHorizonIntent>, now: Tick) -> Seq<
    LongHorizonIntent,
>
    decreases pre.len(),
{
    if pre.len() == 0 {
        Seq::empty()
    } else {
        let rest = spec_tick_emitting(pre.drop_last(), now);
        if spec_tick_emits(pre.last(), now) {
            rest.push(pre.last())
        } else {
            rest
        }
    }
}

/// Whether a candidate of the forming state shares a source symbol with the
/// intent.
pub open spec fn spec_shares_symbol(x: LongHorizonIntent, c: IntentCandidate) -> bool {
    exists|i: int, j: int|
        0 <= i < c.source_symbol_ids@.len() && 0 <= j < x.source_symbol_ids@.len()
            && c.source_symbol_ids@[i] == x.source_symbol_ids@[j]
}

/// Whether the current intent state gives this intent a context match.
pub open spec fn spec_context_match(x: LongHorizonIntent, s: crate::intent::IntentState) -> bool {
    match s {
        crate::intent::IntentState::Forming(cs) => exists|i: int|
            0 <= i < cs@.len() && spec_shares_symbol(x, #[trigger] cs@[i]),
        _ => false,
    }
}

/// Whether this intent may resume: suspended or dormant, strong enough, and
/// matched by the forming context.
pub open spec fn spec_resumable(x: LongHorizonIntent, s: crate::intent::IntentState) -> bool {
    &&& (x.status == IntentStatus::Suspended || x.status == IntentStatus::Dormant)
    &&& x.decay_score > RESUME_THRESHOLD
    &&& spec_context_match(x, s)
}

/// The resumed form of an intent: active again, restamped, its score boosted
/// by at most the resume boost, clamped to one.
pub open spec fn spec_resumed_form(x: LongHorizonIntent, now: Tick, u: LongHorizonIntent) -> bool {
    &&& u.id == x.id
    &&& u.hypothesis == x.hypothesis
    &&& u.source_symbol_ids@ == x.source_symbol_ids@
    &&& u.created_at == x.created_at
    &&& u.last_active_at == now
    &&& u.last_updated_at == now
    &&& u.suspended_at == x.suspended_at
    &&& u.decay_score as int == (if x.decay_score + RESUME_BOOST <= UNIT {
        x.decay_score + RESUME_BOOST
    } else {
        UNIT as int
    })
    &&& u.status == IntentStatus::Active
}

/// Suspension witnesses survive an appended registration delta.
proof fn lemma_suspension_witnesses(
    pre: Seq<StateDelta>,
    post: Seq<StateDelta>,
    state: SharedState,
    cid: IntentId,
    now: Tick,
)
    requires
        post.len() == pre.len() + 1,
        forall|k: int| 0 <= k < pre.len() ==> post[k] == #[trigger] pre[k],
        forall|j: int|
            0 <= j < state.active_intents@.len() && (#[trigger] state.active_intents@[j]).status
                == IntentStatus::Active && state.active_intents@[j].id != cid ==> exists|k: int|
                0 <= k < pre.len() && ((#[trigger] pre[k]) matches StateDelta::LongHorizonIntentUpdate(
                    u,
                ) && spec_shifted_form(state.active_intents@[j], now, u)),
    ensures
        forall|j: int|
            0 <= j < state.active_intents@.len() && (#[trigger] state.active_intents@[j]).status
                == IntentStatus::Active && state.active_intents@[j].id != cid ==> exists|k: int|
                0 <= k < post.len() && ((#[trigger] post[k]) matches StateDelta::LongHorizonIntentUpdate(
                    u,
                ) && spec_shifted_form(state.active_intents@[j], now, u)),
{
    assert forall|j: int|
        0 <= j < state.active_intents@.len() && (#[trigger] state.active_intents@[j]).status
            == IntentStatus::Active && state.active_intents@[j].id != cid implies exists|k: int|
            0 <= k < post.len() && ((#[trigger] post[k]) matches StateDelta::LongHorizonIntentUpdate(
                u,
            ) && spec_shifted_form(state.active_intents@[j], now, u)) by {
        let k = choose|k: int|
            0 <= k < pre.len() && ((#[trigger] pre[k]) matches StateDelta::LongHorizonIntentUpdate(
                u,
            ) && spec_shifted_form(state.active_intents@[j], now, u));
        assert(post[k] == pre[k]);
    }
}

/// The index of the first intent with this id.
fn intents_find(v: &Vec<LongHorizonIntent>, id: IntentId) -> (r: Option<usize>)
    ensures
        match r {
            Some(i) => i < v@.len() && v@[i as int].id == id,
            None => !spec_has_intent(v@, id),
        },
{
    let n: usize = v.len();
    let mut i: usize = 0;
    while i < n
        invariant
            i <= n,
            n == v@.len(),
            forall|j: int| 0 <= j < i ==> (#[trigger] v@[j]).id != id,
        decreases n - i,
    {
        if v[i].id == id {
            return Some(i);
        }
        i = i + 1;
    }
    None
}

impl LongHorizonIntentManager {
    pub fn new() -> (r: Self)
        ensures
            true,
    {
        LongHorizonIntentManager
    }

    /// Register a stable candidate: every other active intent is suspended
    /// (without penalty — the focus merely shifts), and the candidate either
    /// reinforces the first intent with its id (score reset to one, active
    /// again) or enters as a fresh intent.
    pub fn register_intent(
        &self,
        candidate: &IntentCandidate,
        state: &SharedState,
        current_tick: Tick,
        telemetry: &mut TelemetryRecorder,
    ) -> (r: Vec<StateDelta>)
        requires
            state_ok(*state),
            recorder_ok(*old(telemetry)),
        ensures
            recorder_ok(*final(telemetry)),
            r@.len() >= 1,
            forall|i: int|
                0 <= i < r@.len() ==> ((#[trigger] r@[i]) matches StateDelta::LongHorizonIntentUpdate(u)
                    && crate::score::score_ok(u.decay_score)),
            forall|j: int|
                0 <= j < state.active_intents@.len() && (#[trigger] state.active_intents@[j]).status
                    == IntentStatus::Active && state.active_intents@[j].id != candidate.id
                    ==> exists|i: int|
                    0 <= i < r@.len() && ((#[trigger] r@[i]) matches StateDelta::LongHorizonIntentUpdate(
                        u,
                    ) && spec_shifted_form(state.active_intents@[j], current_tick, u)),
            (r@.last() matches StateDelta::LongHorizonIntentUpdate(u) && (if spec_has_intent(
                state.active_intents@,
                candidate.id,
            ) {
                exists|j: int|
                    0 <= j < state.active_intents@.len() && (#[trigger] state.active_intents@[j]).id
                        == candidate.id && spec_reinforced_form(
                        state.active_intents@[j],
                        current_tick,
                        u,
                    )
            } else {
                spec_fresh_intent(*candidate, current_tick, u)
            })),
    {
        let mut deltas: Vec<StateDelta> = Vec::new();
        let n: usize = state.active_intents.len();
        let mut i: usize = 0;
        while i < n
            invariant
                i <= n,
                n == state.active_intents@.len(),
                state_ok(*state),
                recorder_ok(*telemetry),
                forall|j: int|
                    0 <= j < deltas@.len() ==> ((#[trigger] deltas@[j]) matches StateDelta::LongHorizonIntentUpdate(u)
                        && crate::score::score_ok(u.decay_score)),
                forall|j: int|
                    0 <= j < i && (#[trigger] state.active_intents@[j]).status
                        == IntentStatus::Active && state.active_intents@[j].id != candidate.id
                        ==> exists|k: int|
                        0 <= k < deltas@.len() && ((#[trigger] deltas@[k]) matches StateDelta::LongHorizonIntentUpdate(
                            u,
                        ) && spec_shifted_form(state.active_intents@[j], current_tick, u)),
            decreases n - i,
        {
            let ghost deltas_entry = deltas@;
            let x = &state.active_intents[i];
            if matches!(x.status, IntentStatus::Active) && x.id != candidate.id {
                let mut u = x.clone();
                u.status = IntentStatus::Suspended;
                u.suspended_at = Some(current_tick);
                proof {
                    assert(crate::score::score_ok(state.active_intents@[i as int].decay_score));
                }
                deltas.push(StateDelta::LongHorizonIntentUpdate(u));
                proof {
                    assert((deltas@[deltas@.len() - 1]) matches StateDelta::LongHorizonIntentUpdate(
                        u2,
                    ) && spec_shifted_form(state.active_intents@[i as int], current_tick, u2));
                }
            }
            proof {
                assert forall|j: int|
                    0 <= j < i + 1 && (#[trigger] state.active_intents@[j]).status
                        == IntentStatus::Active && state.active_intents@[j].id != candidate.id
                        implies exists|k: int|
                        0 <= k < deltas@.len() && ((#[trigger] deltas@[k]) matches StateDelta::LongHorizonIntentUpdate(
                            u,
                        ) && spec_shifted_form(state.active_intents@[j], current_tick, u)) by {
                    if j < i {
                        let k = choose|k: int|
                            0 <= k < deltas_entry.len() && ((#[trigger] deltas_entry[k]) matches StateDelta::LongHorizonIntentUpdate(
                                u,
                            ) && spec_shifted_form(state.active_intents@[j], current_tick, u));
                        assert(deltas@[k] == deltas_entry[k]);
                    }
                }
            }
            i = i + 1;
        }
        let ghost deltas_before_reg = deltas@;
        let found = intents_find(&state.active_intents, candidate.id);
        match found {
            Some(idx) => {
                let x = &state.active_intents[idx];
                let mut u = x.clone();
                u.decay_score = UNIT;
                u.status = IntentStatus::Active;
                u.last_active_at = current_tick;
                u.last_updated_at = current_tick;
                telemetry.record(
                    crate::telemetry::TelemetryEvent::IntentLifecycle {
                        intent_id: u.id,
                        from: x.status,
                        to: IntentStatus::Active,
                    },
                );
                proof {
                    assert(crate::score::score_ok(u.decay_score));
                    assert(spec_reinforced_form(state.active_intents@[idx as int], current_tick, u));
                }
                deltas.push(StateDelta::LongHorizonIntentUpdate(u));
                proof {
                    lemma_suspension_witnesses(deltas_before_reg, deltas@, *state, candidate.id, current_tick);
                }
            },
            None => {
                let mut source_symbol_ids: Vec<u64> = Vec::new();
                let m: usize = candidate.source_symbol_ids.len();
                let mut t: usize = 0;
                while t < m
                    invariant
                        t <= m,
                        m == candidate.source_symbol_ids@.len(),
                        source_symbol_ids@.len() == t,
                        forall|j: int|
                            0 <= j < t ==> source_symbol_ids@[j] == candidate.source_symbol_ids@[j],
                    decreases m - t,
                {
                    source_symbol_ids.push(candidate.source_symbol_ids[t]);
                    t = t + 1;
                }
                proof {
                    assert(source_symbol_ids@ =~= candidate.source_symbol_ids@);
                }
                let u = LongHorizonIntent {
                    id: candidate.id,
                    hypothesis: candidate.hypothesis,
                    source_symbol_ids,
                    created_at: current_tick,
                    last_active_at: current_tick,
                    last_updated_at: current_tick,
                    suspended_at: None,
                    decay_score: UNIT,
                    status: IntentStatus::Active,
                };
                telemetry.record(
                    crate::telemetry::TelemetryEvent::IntentLifecycle {
                        intent_id: u.id,
                        from: IntentStatus::Active,
                        to: IntentStatus::Active,
                    },
                );
                proof {
                    assert(spec_fresh_intent(*candidate, current_tick, u));
                }
                deltas.push(StateDelta::LongHorizonIntentUpdate(u));
                proof {
                    lemma_suspension_witnesses(deltas_before_reg, deltas@, *state, candidate.id, current_tick);
                }
            },
        }
        deltas
    }

    /// Suspend one intent by id, with the immediate penalty, if it is active.
    pub fn suspend_intent(
        &self,
        id: IntentId,
        state: &SharedState,
        current_tick: Tick,
    ) -> (r: Option<StateDelta>)
        requires
            state_ok(*state),
        ensures
            match r {
                Some(d) => d matches StateDelta::LongHorizonIntentUpdate(u) && exists|j: int|
                    0 <= j < state.active_intents@.len() && (#[trigger] state.active_intents@[j]).id
                        == id && state.active_intents@[j].status == IntentStatus::Active
                        && spec_suspended_form(state.active_intents@[j], current_tick, u),
                None => !exists|j: int|
                    0 <= j < state.active_intents@.len() && (#[trigger] state.active_intents@[j]).id
                        == id && state.active_intents@[j].status == IntentStatus::Active,
            },
    {
        let n: usize = state.active_intents.len();
        let mut i: usize = 0;
        while i < n
            invariant
                i <= n,
                n == state.active_intents@.len(),
                state_ok(*state),
                forall|j: int|
                    0 <= j < i ==> !((#[trigger] state.active_intents@[j]).id == id
                        && state.active_intents@[j].status == IntentStatus::Active),
            decreases n - i,
        {
            let x = &state.active_intents[i];
            if x.id == id && matches!(x.status, IntentStatus::Active) {
                let mut u = x.clone();
                u.status = IntentStatus::Suspended;
                u.suspended_at = Some(current_tick);
                u.decay_score = crate::score::decay_step(x.decay_score, SUSPEND_PENALTY);
                return Some(StateDelta::LongHorizonIntentUpdate(u));
            }
            i = i + 1;
        }
        None
    }

    /// Interruption supremacy: suspend every active intent at once, each with
    /// the immediate penalty.
    pub fn handle_interruption(
        &self,
        state: &SharedState,
        current_tick: Tick,
        telemetry: &mut TelemetryRecorder,
    ) -> (r: Vec<StateDelta>)
        requires
            state_ok(*state),
            recorder_ok(*old(telemetry)),
        ensures
            recorder_ok(*final(telemetry)),
            r@.len() == spec_actives(state.active_intents@).len(),
            forall|i: int|
                0 <= i < r@.len() ==> ((#[trigger] r@[i]) matches StateDelta::LongHorizonIntentUpdate(u)
                    && spec_suspended_form(spec_actives(state.active_intents@)[i], current_tick, u)
                    && crate::score::score_ok(u.decay_score)),
    {
        let mut deltas: Vec<StateDelta> = Vec::new();
        let n: usize = state.active_intents.len();
        let mut i: usize = 0;
        while i < n
            invariant
                i <= n,
                n == state.active_intents@.len(),
                state_ok(*state),
                recorder_ok(*telemetry),
                deltas@.len() == spec_actives(state.active_intents@.subrange(0, i as int)).len(),
                forall|j: int|
                    0 <= j < deltas@.len() ==> ((#[trigger] deltas@[j]) matches StateDelta::LongHorizonIntentUpdate(u)
                        && spec_suspended_form(
                        spec_actives(state.active_intents@.subrange(0, i as int))[j],
                        current_tick,
                        u,
                    ) && crate::score::score_ok(u.decay_score)),
            decreases n - i,
        {
            proof {
                assert(state.active_intents@.subrange(0, i + 1).drop_last()
                    =~= state.active_intents@.subrange(0, i as int));
                assert(state.active_intents@.subrange(0, i + 1).last()
                    == state.active_intents@[i as int]);
            }
            let x = &state.active_intents[i];
            if matches!(x.status, IntentStatus::Active) {
                let mut u = x.clone();
                u.status = IntentStatus::Suspended;
                u.suspended_at = Some(current_tick);
                u.decay_score = crate::score::decay_step(x.decay_score, SUSPEND_PENALTY);
                telemetry.record(
                    crate::telemetry::TelemetryEvent::IntentLifecycle {
                        intent_id: u.id,
                        from: IntentStatus::Active,
                        to: IntentStatus::Suspended,
                    },
                );
                deltas.push(StateDelta::LongHorizonIntentUpdate(u));
            }
            i = i + 1;
        }
        proof {
            assert(state.active_intents@.subrange(0, n as int) =~= state.active_intents@);
        }
        deltas
    }

    /// Per-tick decay: each live intent's score falls by the decay rate per
    /// tick since its last update; low scores drop the intent to dormant or
    /// invalidate it. A delta is emitted only where something noticeable
    /// happened.
    pub fn tick(
        &self,
        current_tick: Tick,
        state: &SharedState,
        telemetry: &mut TelemetryRecorder,
    ) -> (r: Vec<StateDelta>)
        requires
            state_ok(*state),
            recorder_ok(*old(telemetry)),
        ensures
            recorder_ok(*final(telemetry)),
            r@.len() == spec_tick_emitting(state.active_intents@, current_tick).len(),
            forall|i: int|
                0 <= i < r@.len() ==> ((#[trigger] r@[i]) matches StateDelta::LongHorizonIntentUpdate(u)
                    && spec_ticked_form(
                    spec_tick_emitting(state.active_intents@, current_tick)[i],
                    current_tick,
                    u,
                ) && crate::score::score_ok(u.decay_score)),
    {
        let mut deltas: Vec<StateDelta> = Vec::new();
        let n: usize = state.active_intents.len();
        let mut i: usize = 0;
        while i < n
            invariant
                i <= n,
                n == state.active_intents@.len(),
                state_ok(*state),
                recorder_ok(*telemetry),
                deltas@.len() == spec_tick_emitting(
                    state.active_intents@.subrange(0, i as int),
                    current_tick,
                ).len(),
                forall|j: int|
                    0 <= j < deltas@.len() ==> ((#[trigger] deltas@[j]) matches StateDelta::LongHorizonIntentUpdate(u)
                        && spec_ticked_form(
                        spec_tick_emitting(state.active_intents@.subrange(0, i as int), current_tick)[j],
                        current_tick,
                        u,
                    ) && crate::score::score_ok(u.decay_score)),
            decreases n - i,
        {
            proof {
                assert(state.active_intents@.subrange(0, i + 1).drop_last()
                    =~= state.active_intents@.subrange(0, i as int));
                assert(state.active_intents@.subrange(0, i + 1).last()
                    == state.active_intents@[i as int]);
            }
            let x = &state.active_intents[i];
            if !matches!(x.status, IntentStatus::Completed) && !matches!(
                x.status,
                IntentStatus::Invalidated,
            ) {
                let gap: u64 = if current_tick.frame >= x.last_updated_at.frame {
                    current_tick.frame - x.last_updated_at.frame
                } else {
                    0
                };
                let ns = crate::score::decay_pow(x.decay_score, DECAY_RATE, gap);
                let new_status = if ns < INVALIDATION_THRESHOLD {
                    IntentStatus::Invalidated
                } else if ns < DORMANCY_THRESHOLD {
                    IntentStatus::Dormant
                } else {
                    x.status
                };
                if new_status != x.status || x.decay_score - ns > EMIT_EPSILON {
                    let mut u = x.clone();
                    u.decay_score = ns;
                    u.status = new_status;
                    if gap > 0 {
                        u.last_updated_at = current_tick;
                    }
                    if matches!(new_status, IntentStatus::Invalidated) {
                        telemetry.record(
                            crate::telemetry::TelemetryEvent::IntentLifecycle {
                                intent_id: u.id,
                                from: x.status,
                                to: IntentStatus::Invalidated,
                            },
                        );
                    }
                    deltas.push(StateDelta::LongHorizonIntentUpdate(u));
                }
            }
            i = i + 1;
        }
        proof {
            assert(state.active_intents@.subrange(0, n as int) =~= state.active_intents@);
        }
        deltas
    }

    /// Silent resumption: when nothing is active and the forming context
    /// shares a symbol with a suspended or dormant intent that is still
    /// strong enough, the first such intent becomes active again with a small
    /// boost. Nothing else is ever resumed, and nothing audible happens.
    pub fn try_resume(
        &self,
        state: &SharedState,
        current_tick: Tick,
        telemetry: &mut TelemetryRecorder,
    ) -> (r: Vec<StateDelta>)
        requires
            state_ok(*state),
            recorder_ok(*old(telemetry)),
        ensures
            recorder_ok(*final(telemetry)),
            spec_any_active(state.active_intents@) ==> r@.len() == 0,
            r@.len() <= 1,
            r@.len() == 1 ==> (r@[0] matches StateDelta::LongHorizonIntentUpdate(u)
                && crate::score::score_ok(u.decay_score) && exists|j: int|
                0 <= j < state.active_intents@.len() && spec_resumable(
                    #[trigger] state.active_intents@[j],
                    state.intent_state,
                ) && spec_resumed_form(state.active_intents@[j], current_tick, u)),
            (!spec_any_active(state.active_intents@) && exists|j: int|
                0 <= j < state.active_intents@.len() && spec_resumable(
                    #[trigger] state.active_intents@[j],
                    state.intent_state,
                )) ==> r@.len() == 1,
    {
        let n: usize = state.active_intents.len();
        let mut i: usize = 0;
        while i < n
            invariant
                i <= n,
                n == state.active_intents@.len(),
                recorder_ok(*telemetry),
                forall|j: int|
                    0 <= j < i ==> (#[trigger] state.active_intents@[j]).status
                        != IntentStatus::Active,
            decreases n - i,
        {
            if matches!(state.active_intents[i].status, IntentStatus::Active) {
                return Vec::new();
            }
            i = i + 1;
        }
        proof {
            assert(!spec_any_active(state.active_intents@));
        }
        let mut k: usize = 0;
        while k < n
            invariant
                k <= n,
                n == state.active_intents@.len(),
                state_ok(*state),
                recorder_ok(*telemetry),
                !spec_any_active(state.active_intents@),
                forall|j: int|
                    0 <= j < k ==> !spec_resumable(
                        #[trigger] state.active_intents@[j],
                        state.intent_state,
                    ),
            decreases n - k,
        {
            let x = &state.active_intents[k];
            let eligible = (matches!(x.status, IntentStatus::Suspended) || matches!(
                x.status,
                IntentStatus::Dormant,
            )) && x.decay_score > RESUME_THRESHOLD;
            let matched = if eligible {
                self.context_match(x, state)
            } else {
                false
            };
            if eligible && matched {
                let mut u = x.clone();
                u.status = IntentStatus::Active;
                u.last_active_at = current_tick;
                u.last_updated_at = current_tick;
                u.decay_score = crate::score::add_clamped(x.decay_score, RESUME_BOOST);
                let dormant_ticks: u64 = match x.suspended_at {
                    Some(s) => if current_tick.frame >= s.frame {
                        current_tick.frame - s.frame
                    } else {
                        0
                    },
                    None => 0,
                };
                telemetry.record(
                    crate::telemetry::TelemetryEvent::IntentResumption {
                        intent_id: u.id,
                        dormant_ticks,
                    },
                );
                let mut r: Vec<StateDelta> = Vec::new();
                r.push(StateDelta::LongHorizonIntentUpdate(u));
                return r;
            } else {
                proof {
                    assert(!spec_resumable(state.active_intents@[k as int], state.intent_state));
                }
            }
            k = k + 1;
        }
        Vec::new()
    }

    /// Whether the forming context shares a source symbol with this intent.
    fn context_match(&self, x: &LongHorizonIntent, state: &SharedState) -> (r: bool)
        ensures
            r == spec_context_match(*x, state.intent_state),
    {
        match &state.intent_state {
            crate::intent::IntentState::Forming(cands) => {
                let cn: usize = cands.len();
                let mut i: usize = 0;
                while i < cn
                    invariant
                        i <= cn,
                        cn == cands@.len(),
                        state.intent_state matches crate::intent::IntentState::Forming(cs) && cs@
                            == cands@,
                        forall|j: int| 0 <= j < i ==> !spec_shares_symbol(*x, #[trigger] cands@[j]),
                    decreases cn - i,
                {
                    let c = &cands[i];
                    let sn: usize = c.source_symbol_ids.len();
                    let mut a: usize = 0;
                    while a < sn
                        invariant
                            a <= sn,
                            i < cn,
                            cn == cands@.len(),
                            *c == cands@[i as int],
                            state.intent_state matches crate::intent::IntentState::Forming(cs)
                                && cs@ == cands@,
                            sn == c.source_symbol_ids@.len(),
                            forall|p: int, q: int|
                                0 <= p < a && 0 <= q < x.source_symbol_ids@.len() ==> (
                                #[trigger] c.source_symbol_ids@[p]) != (
                                #[trigger] x.source_symbol_ids@[q]),
                        decreases sn - a,
                    {
                        let xn: usize = x.source_symbol_ids.len();
                        let mut b: usize = 0;
                        while b < xn
                            invariant
                                b <= xn,
                                a < sn,
                                i < cn,
                                cn == cands@.len(),
                                *c == cands@[i as int],
                                state.intent_state matches crate::intent::IntentState::Forming(cs)
                                    && cs@ == cands@,
                                sn == c.source_symbol_ids@.len(),
                                xn == x.source_symbol_ids@.len(),
                                forall|q: int|
                                    0 <= q < b ==> c.source_symbol_ids@[a as int] != (
                                    #[trigger] x.source_symbol_ids@[q]),
                            decreases xn - b,
                        {
                            if c.source_symbol_ids[a] == x.source_symbol_ids[b] {
                                proof {
                                    assert(c.source_symbol_ids@[a as int] == x.source_symbol_ids@[
                                        b as int]);
                                    assert(spec_shares_symbol(*x, cands@[i as int]));
                                }
                                return true;
                            }
                            b = b + 1;
                        }
                        a = a + 1;
                    }
                    i = i + 1;
                }
                false
            },
            _ => false,
        }
    }

    /// The planner's context view: the strongest active intent, if any is
    /// strong enough to matter, as a focus hypothesis and a strength. When
    /// some active intent clears the context floor, the view carries the
    /// maximal active score and the hypothesis of an intent holding it;
    /// otherwise the view is empty.
    pub fn get_context(&self, state: &SharedState) -> (r: IntentContext)
        requires
            state_ok(*state),
        ensures
            crate::score::score_ok(r.strength),
            spec_any_strong_active(state.active_intents@) ==> (r.active_focus matches Some(h)
                && r.strength > CONTEXT_FLOOR && (exists|j: int|
                0 <= j < state.active_intents@.len() && {
                    let x = #[trigger] state.active_intents@[j];
                    x.status == IntentStatus::Active && x.decay_score == r.strength
                        && x.hypothesis == h
                }) && (forall|k: int|
                0 <= k < state.active_intents@.len() && (#[trigger] state.active_intents@[k]).status
                    == IntentStatus::Active ==> state.active_intents@[k].decay_score
                    <= r.strength)),
            !spec_any_strong_active(state.active_intents@) ==> r.active_focus is None
                && r.strength == 0,
    {
        let n: usize = state.active_intents.len();
        let mut best: Option<usize> = None;
        let mut i: usize = 0;
        while i < n
            invariant
                i <= n,
                n == state.active_intents@.len(),
                state_ok(*state),
                match best {
                    Some(b) => b < i && state.active_intents@[b as int].status
                        == IntentStatus::Active && (forall|k: int|
                        0 <= k < i && (#[trigger] state.active_intents@[k]).status
                            == IntentStatus::Active ==> state.active_intents@[k].decay_score
                            <= state.active_intents@[b as int].decay_score),
                    None => forall|k: int|
                        0 <= k < i ==> (#[trigger] state.active_intents@[k]).status
                            != IntentStatus::Active,
                },
            decreases n - i,
        {
            let x = &state.active_intents[i];
            if matches!(x.status, IntentStatus::Active) {
                let better = match best {
                    Some(b) => x.decay_score >= state.active_intents[b].decay_score,
                    None => true,
                };
                if better {
                    best = Some(i);
                }
            }
            i = i + 1;
        }
        match best {
            Some(b) => {
                let x = &state.active_intents[b];
                if x.decay_score > CONTEXT_FLOOR {
                    IntentContext { active_focus: Some(x.hypothesis), strength: x.decay_score }
                } else {
                    proof {
                        assert(!spec_any_strong_active(state.active_intents@));
                    }
                    IntentContext { active_focus: None, strength: 0 }
                }
            },
            None => IntentContext { active_focus: None, strength: 0 },
        }
    }
}

} // verus!
