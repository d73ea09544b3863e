//! Derived telemetry metrics: a pure fold over the recorded events.

use vstd::prelude::*;
use std::collections::VecDeque;
use crate::telemetry::{
    DialogueActKind, MemoryEventKind, TelemetryEvent, TelemetryRecorder, recorder_ok,
};
use crate::lhim::IntentStatus;
use crate::score::UNIT;

verus! {

/// Totals about silence periods. Averages round down; with no periods they
/// are zero.
#[derive(Debug, Clone, Copy, PartialEq, Eq, Structural)]
pub struct SilenceStats {
    pub total_periods: u64,
    pub total_ticks: u64,
    pub avg_silence_ticks: u64,
    pub max_silence_ticks: u64,
}

/// Totals about interruptions and how fast they canceled output.
#[derive(Debug, Clone, Copy, PartialEq, Eq, Structural)]
pub struct InterruptionStats {
    pub count: u64,
    pub total_latency_ticks: u64,
    pub avg_cancel_latency_ticks: u64,
}

/// Totals about the intent lifecycle.
#[derive(Debug, Clone, Copy, PartialEq, Eq, Structural)]
pub struct IntentStats {
    pub created: u64,
    pub suspended: u64,
    pub resumed: u64,
    pub invalidated: u64,
    pub total_dormant_ticks: u64,
    pub avg_dormancy_ticks: u64,
}

/// Totals about memory events.
#[derive(Debug, Clone, Copy, PartialEq, Eq, Structural, Default)]
pub struct MemoryStats {
    pub candidates_created: u64,
    pub reinforced: u64,
    pub promoted: u64,
    pub decayed: u64,
    pub forgotten: u64,
}

/// Totals about dialogue acts.
#[derive(Debug, Clone, Copy, PartialEq, Eq, Structural, Default)]
pub struct DialogueStats {
    pub clarifications: u64,
    pub confirmations: u64,
    pub offers: u64,
    pub silent_waits: u64,
}

/// The full derived snapshot.
#[derive(Debug, Clone, Copy, PartialEq, Eq, Structural)]
pub struct TelemetrySnapshot {
    pub silence_stats: SilenceStats,
    pub interruption_stats: InterruptionStats,
    pub intent_stats: IntentStats,
    pub memory_stats: MemoryStats,
    pub dialogue_stats: DialogueStats,
}

/// Saturating addition; sums of durations never wrap.
pub open spec fn spec_sat_add(a: u64, b: u64) -> u64 {
    if a + b <= u64::MAX {
        (a + b) as u64
    } else {
        u64::MAX
    }
}

fn sat_add(a: u64, b: u64) -> (r: u64)
    ensures
        r == spec_sat_add(a, b),
{
    if a <= u64::MAX - b {
        a + b
    } else {
        u64::MAX
    }
}

/// The all-zero snapshot.
pub open spec fn spec_zero_snapshot() -> TelemetrySnapshot {
    TelemetrySnapshot {
        silence_stats: SilenceStats {
            total_periods: 0,
            total_ticks: 0,
            avg_silence_ticks: 0,
            max_silence_ticks: 0,
        },
        interruption_stats: InterruptionStats {
            count: 0,
            total_latency_ticks: 0,
            avg_cancel_latency_ticks: 0,
        },
        intent_stats: IntentStats {
            created: 0,
            suspended: 0,
            resumed: 0,
            invalidated: 0,
            total_dormant_ticks: 0,
            avg_dormancy_ticks: 0,
        },
        memory_stats: MemoryStats {
            candidates_created: 0,
            reinforced: 0,
            promoted: 0,
            decayed: 0,
            forgotten: 0,
        },
        dialogue_stats: DialogueStats {
            clarifications: 0,
            confirmations: 0,
            offers: 0,
            silent_waits: 0,
        },
    }
}

/// One event folded into the running totals. Average fields stay untouched
/// here; they are derived at the end.
pub open spec fn spec_tally_one(s: TelemetrySnapshot, e: TelemetryEvent) -> TelemetrySnapshot {
    match e {
        TelemetryEvent::SilencePeriod { duration_ticks } => TelemetrySnapshot {
            silence_stats: SilenceStats {
                total_periods: spec_sat_add(s.silence_stats.total_periods, 1),
                total_ticks: spec_sat_add(s.silence_stats.total_ticks, duration_ticks),
                max_silence_ticks: if duration_ticks > s.silence_stats.max_silence_ticks {
                    duration_ticks
                } else {
                    s.silence_stats.max_silence_ticks
                },
                ..s.silence_stats
            },
            ..s
        },
        TelemetryEvent::Interruption { source, cancel_latency_ticks } => TelemetrySnapshot {
            interruption_stats: InterruptionStats {
                count: spec_sat_add(s.interruption_stats.count, 1),
                total_latency_ticks: spec_sat_add(
                    s.interruption_stats.total_latency_ticks,
                    cancel_latency_ticks,
                ),
                ..s.interruption_stats
            },
            ..s
        },
        TelemetryEvent::IntentLifecycle { intent_id, from, to } => TelemetrySnapshot {
            intent_stats: match to {
                IntentStatus::Active => IntentStats {
                    created: spec_sat_add(s.intent_stats.created, 1),
                    ..s.intent_stats
                },
                IntentStatus::Suspended => IntentStats {
                    suspended: spec_sat_add(s.intent_stats.suspended, 1),
                    ..s.intent_stats
                },
                IntentStatus::Invalidated => IntentStats {
                    invalidated: spec_sat_add(s.intent_stats.invalidated, 1),
                    ..s.intent_stats
                },
                _ => s.intent_stats,
            },
            ..s
        },
        TelemetryEvent::IntentResumption { intent_id, dormant_ticks } => TelemetrySnapshot {
            intent_stats: IntentStats {
                resumed: spec_sat_add(s.intent_stats.resumed, 1),
                total_dormant_ticks: spec_sat_add(
                    s.intent_stats.total_dormant_ticks,
                    dormant_ticks,
                ),
                ..s.intent_stats
            },
            ..s
        },
        TelemetryEvent::MemoryEvent { kind, memory_id } => TelemetrySnapshot {
            memory_stats: match kind {
                MemoryEventKind::CandidateCreated => MemoryStats {
                    candidates_created: spec_sat_add(s.memory_stats.candidates_created, 1),
                    ..s.memory_stats
                },
                MemoryEventKind::Reinforced => MemoryStats {
                    reinforced: spec_sat_add(s.memory_stats.reinforced, 1),
                    ..s.memory_stats
                },
                MemoryEventKind::Promoted => MemoryStats {
                    promoted: spec_sat_add(s.memory_stats.promoted, 1),
                    ..s.memory_stats
                },
                MemoryEventKind::Decayed => MemoryStats {
                    decayed: spec_sat_add(s.memory_stats.decayed, 1),
                    ..s.memory_stats
                },
                MemoryEventKind::Forgotten => MemoryStats {
                    forgotten: spec_sat_add(s.memory_stats.forgotten, 1),
                    ..s.memory_stats
                },
                MemoryEventKind::AttributesUpdated => s.memory_stats,
            },
            ..s
        },
        TelemetryEvent::DialogueAct { act } => TelemetrySnapshot {
            dialogue_stats: match act {
                DialogueActKind::AskClarification => DialogueStats {
                    clarifications: spec_sat_add(s.dialogue_stats.clarifications, 1),
                    ..s.dialogue_stats
                },
                DialogueActKind::Confirm => DialogueStats {
                    confirmations: spec_sat_add(s.dialogue_stats.confirmations, 1),
                    ..s.dialogue_stats
                },
                DialogueActKind::Offer => DialogueStats {
                    offers: spec_sat_add(s.dialogue_stats.offers, 1),
                    ..s.dialogue_stats
                },
                DialogueActKind::Wait => DialogueStats {
                    silent_waits: spec_sat_add(s.dialogue_stats.silent_waits, 1),
                    ..s.dialogue_stats
                },
                DialogueActKind::StaySilent => DialogueStats {
                    silent_waits: spec_sat_add(s.dialogue_stats.silent_waits, 1),
                    ..s.dialogue_stats
                },
            },
            ..s
        },
        _ => s,
    }
}

/// All events folded into totals, oldest first.
pub open spec fn spec_tally(events: Seq<TelemetryEvent>) -> TelemetrySnapshot
    decreases events.len(),
{
    if events.len() == 0 {
        spec_zero_snapshot()
    } else {
        spec_tally_one(spec_tally(events.drop_last()), events.last())
    }
}

/// The finished snapshot: the totals, with the three averages derived by
/// floor division, zero where the divisor is zero.
pub open spec fn spec_snapshot(events: Seq<TelemetryEvent>) -> TelemetrySnapshot {
    let t = spec_tally(events);
    TelemetrySnapshot {
        silence_stats: SilenceStats {
            avg_silence_ticks: if t.silence_stats.total_periods > 0 {
                (t.silence_stats.total_ticks / t.silence_stats.total_periods) as u64
            } else {
                0
            },
            ..t.silence_stats
        },
        interruption_stats: InterruptionStats {
            avg_cancel_latency_ticks: if t.interruption_stats.count > 0 {
                (t.interruption_stats.total_latency_ticks / t.interruption_stats.count) as u64
            } else {
                0
            },
            ..t.interruption_stats
        },
        intent_stats: IntentStats {
            avg_dormancy_ticks: if t.intent_stats.resumed > 0 {
                (t.intent_stats.total_dormant_ticks / t.intent_stats.resumed) as u64
            } else {
                0
            },
            ..t.intent_stats
        },
        ..t
    }
}

/// Compute the derived metrics from a ring of events.
pub fn compute_snapshot(events: &VecDeque<TelemetryEvent>) -> (r: TelemetrySnapshot)
    ensures
        r == spec_snapshot(events@),
{
    let mut t = TelemetrySnapshot {
        silence_stats: SilenceStats {
            total_periods: 0,
            total_ticks: 0,
            avg_silence_ticks: 0,
            max_silence_ticks: 0,
        },
        interruption_stats: InterruptionStats {
            count: 0,
            total_latency_ticks: 0,
            avg_cancel_latency_ticks: 0,
        },
        intent_stats: IntentStats {
            created: 0,
            suspended: 0,
            resumed: 0,
            invalidated: 0,
            total_dormant_ticks: 0,
            avg_dormancy_ticks: 0,
        },
        memory_stats: MemoryStats {
            candidates_created: 0,
            reinforced: 0,
            promoted: 0,
            decayed: 0,
            forgotten: 0,
        },
        dialogue_stats: DialogueStats {
            clarifications: 0,
            confirmations: 0,
            offers: 0,
            silent_waits: 0,
        },
    };
    let n: usize = events.len();
    let mut i: usize = 0;
    while i < n
        invariant
            i <= n,
            n == events@.len(),
            t == spec_tally(events@.subrange(0, i as int)),
        decreases n - i,
    {
        proof {
            assert(events@.subrange(0, i + 1).drop_last() =~= events@.subrange(0, i as int));
            assert(events@.subrange(0, i + 1).last() == events@[i as int]);
        }
        let e = events[i];
        match e {
            TelemetryEvent::SilencePeriod { duration_ticks } => {
                t.silence_stats.total_periods = sat_add(t.silence_stats.total_periods, 1);
                t.silence_stats.total_ticks = sat_add(
                    t.silence_stats.total_ticks,
                    duration_ticks,
                );
                if duration_ticks > t.silence_stats.max_silence_ticks {
                    t.silence_stats.max_silence_ticks = duration_ticks;
                }
            },
            TelemetryEvent::Interruption { source: _, cancel_latency_ticks } => {
                t.interruption_stats.count = sat_add(t.interruption_stats.count, 1);
                t.interruption_stats.total_latency_ticks = sat_add(
                    t.interruption_stats.total_latency_ticks,
                    cancel_latency_ticks,
                );
            },
            TelemetryEvent::IntentLifecycle { intent_id: _, from: _, to } => {
                match to {
                    IntentStatus::Active => {
                        t.intent_stats.created = sat_add(t.intent_stats.created, 1);
                    },
                    IntentStatus::Suspended => {
                        t.intent_stats.suspended = sat_add(t.intent_stats.suspended, 1);
                    },
                    IntentStatus::Invalidated => {
                        t.intent_stats.invalidated = sat_add(t.intent_stats.invalidated, 1);
                    },
                    _ => {},
                }
            },
            TelemetryEvent::IntentResumption { intent_id: _, dormant_ticks } => {
                t.intent_stats.resumed = sat_add(t.intent_stats.resumed, 1);
                t.intent_stats.total_dormant_ticks = sat_add(
                    t.intent_stats.total_dormant_ticks,
                    dormant_ticks,
                );
            },
            TelemetryEvent::MemoryEvent { kind, memory_id: _ } => {
                match kind {
                    MemoryEventKind::CandidateCreated => {
                        t.memory_stats.candidates_created = sat_add(
                            t.memory_stats.candidates_created,
                            1,
                        );
                    },
                    MemoryEventKind::Reinforced => {
                        t.memory_stats.reinforced = sat_add(t.memory_stats.reinforced, 1);
                    },
                    MemoryEventKind::Promoted => {
                        t.memory_stats.promoted = sat_add(t.memory_stats.promoted, 1);
                    },
                    MemoryEventKind::Decayed => {
                        t.memory_stats.decayed = sat_add(t.memory_stats.decayed, 1);
                    },
                    MemoryEventKind::Forgotten => {
                        t.memory_stats.forgotten = sat_add(t.memory_stats.forgotten, 1);
                    },
                    MemoryEventKind::AttributesUpdated => {},
                }
            },
            TelemetryEvent::DialogueAct { act } => {
                match act {
                    DialogueActKind::AskClarification => {
                        t.dialogue_stats.clarifications = sat_add(
                            t.dialogue_stats.clarifications,
                            1,
                        );
                    },
                    DialogueActKind::Confirm => {
                        t.dialogue_stats.confirmations = sat_add(
                            t.dialogue_stats.confirmations,
                            1,
                        );
                    },
                    DialogueActKind::Offer => {
                        t.dialogue_stats.offers = sat_add(t.dialogue_stats.offers, 1);
                    },
                    DialogueActKind::Wait => {
                        t.dialogue_stats.silent_waits = sat_add(t.dialogue_stats.silent_waits, 1);
                    },
                    DialogueActKind::StaySilent => {
                        t.dialogue_stats.silent_waits = sat_add(t.dialogue_stats.silent_waits, 1);
                    },
                }
            },
            _ => {},
        }
        i = i + 1;
    }
    proof {
        assert(events@.subrange(0, n as int) =~= events@);
    }
    if t.silence_stats.total_periods > 0 {
        t.silence_stats.avg_silence_ticks = t.silence_stats.total_ticks
            / t.silence_stats.total_periods;
    } else {
        t.silence_stats.avg_silence_ticks = 0;
    }
    if t.interruption_stats.count > 0 {
        t.interruption_stats.avg_cancel_latency_ticks = t.interruption_stats.total_latency_ticks
            / t.interruption_stats.count;
    } else {
        t.interruption_stats.avg_cancel_latency_ticks = 0;
    }
    if t.intent_stats.resumed > 0 {
        t.intent_stats.avg_dormancy_ticks = t.intent_stats.total_dormant_ticks
            / t.intent_stats.resumed;
    } else {
        t.intent_stats.avg_dormancy_ticks = 0;
    }
    t
}

impl TelemetryRecorder {
    /// The derived metrics of everything currently recorded.
    pub fn snapshot(&self) -> (r: TelemetrySnapshot)
        ensures
            r == spec_snapshot(self.buffer@),
    {
        compute_snapshot(&self.buffer)
    }

    /// The end-of-session summary: the silence share of the run (in
    /// ten-thousandths, zero for an empty run), interruption and resumption
    /// counts, and promotions standing in for granted consents.
    pub fn aggregate_session(&self, duration_ticks: u64) -> (r: TelemetryEvent)
        ensures
            ({
                let snap = spec_snapshot(self.buffer@);
                r == TelemetryEvent::SessionSummary {
                    duration_ticks,
                    silence_share: if duration_ticks > 0 {
                        (spec_min_u64(snap.silence_stats.total_ticks, duration_ticks)
                            * (crate::score::UNIT as int) / (duration_ticks as int)) as u32
                    } else {
                        0u32
                    },
                    interruptions: snap.interruption_stats.count,
                    resumed_intents: snap.intent_stats.resumed,
                    memory_consents: snap.memory_stats.promoted,
                }
            }),
    {
        let snap = self.snapshot();
        let silence_share: u32 = if duration_ticks > 0 {
            let capped = if snap.silence_stats.total_ticks < duration_ticks {
                snap.silence_stats.total_ticks
            } else {
                duration_ticks
            };
            let share = capped as u128 * UNIT as u128 / duration_ticks as u128;
            proof {
                assert(capped as int * (UNIT as int) <= duration_ticks as int * (UNIT as int))
                    by (nonlinear_arith)
                    requires capped <= duration_ticks,
                ;
                assert(duration_ticks as int * (UNIT as int) / (duration_ticks as int) == UNIT)
                    by (nonlinear_arith)
                    requires duration_ticks > 0,
                ;
                assert(share <= UNIT) by (nonlinear_arith)
                    requires
                        share == capped as int * (UNIT as int) / (duration_ticks as int),
                        capped <= duration_ticks,
                        duration_ticks > 0,
                ;
            }
            share as u32
        } else {
            0
        };
        TelemetryEvent::SessionSummary {
            duration_ticks,
            silence_share,
            interruptions: snap.interruption_stats.count,
            resumed_intents: snap.intent_stats.resumed,
            memory_consents: snap.memory_stats.promoted,
        }
    }
}

/// The smaller of two counters.
pub open spec fn spec_min_u64(a: u64, b: u64) -> u64 {
    if a < b {
        a
    } else {
        b
    }
}

} // verus!
