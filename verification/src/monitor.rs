//! The self-observation monitor: a passive sidecar that watches how the
//! user reacts, accumulates meta-latent scores, and lets them heal toward
//! zero over time.

use vstd::prelude::*;
use crate::event::{InputContent, InputEvent};
use crate::score::Score;
use crate::state::{MetaLatents, SharedState, StateDelta, meta_ok};
use crate::text::{chars_of, contains_seq, lower_chars, spec_contains_seq, spec_lower};

verus! {

/// Boost to interruption sensitivity on an unexpected interruption.
pub const INTERRUPTION_BOOST: u32 = 3000;

/// Boost to the confidence penalty on an explicit user correction.
pub const CORRECTION_PENALTY: u32 = 5000;

/// Boost to the correction bias on an explicit user correction.
pub const CORRECTION_BIAS_BOOST: u32 = 4000;

/// Boost to interruption sensitivity on a truncated response.
pub const TRUNCATION_BOOST: u32 = 1000;

/// Boost to the confidence penalty on a confidence mismatch.
pub const MISMATCH_PENALTY: u32 = 2000;

/// Healing of the confidence penalty on a success.
pub const RECOVERY_PENALTY_RELIEF: u32 = 1000;

/// Healing of interruption sensitivity on a success.
pub const RECOVERY_INTERRUPTION_RELIEF: u32 = 500;

/// Per-tick decay of the fast meta-latents.
pub const META_DECAY_PER_TICK: u32 = 100;

/// Per-tick decay of the confidence penalty; it heals at half speed.
pub const PENALTY_DECAY_PER_TICK: u32 = 50;

/// An objective observation about system behaviour and user reaction.
#[derive(Debug, Clone, PartialEq, Eq)]
pub enum SelfObservation {
    /// Output was interrupted by the user quickly.
    UnexpectedInterruption { output_id: Option<u64> },
    /// The user explicitly corrected the system.
    UserCorrection { output_id: Option<u64> },
    /// The user stopped the output early without correcting it.
    ResponseTruncation { output_id: Option<u64> },
    /// High confidence, but the plan failed or was canceled.
    ConfidenceMismatch { expected: Score },
    /// An intent chain completed without interruption.
    StableAlignment,
    /// The user confirmed the statement.
    Confirmation,
}

/// An observation with how sure the monitor is of it, and when it was made.
#[derive(Debug, Clone, PartialEq, Eq)]
pub struct MetaObservationEvent {
    pub observation: SelfObservation,
    pub confidence: Score,
    pub timestamp: u64,
}

/// One observation folded into the meta-latents, with clamped arithmetic.
pub open spec fn spec_apply_obs(m: MetaLatents, o: SelfObservation) -> MetaLatents {
    match o {
        SelfObservation::UnexpectedInterruption { .. } => MetaLatents {
            interruption_sensitivity: spec_add_clamped(
                m.interruption_sensitivity,
                INTERRUPTION_BOOST,
            ),
            ..m
        },
        SelfObservation::UserCorrection { .. } => MetaLatents {
            confidence_penalty: spec_add_clamped(m.confidence_penalty, CORRECTION_PENALTY),
            correction_bias: spec_add_clamped(m.correction_bias, CORRECTION_BIAS_BOOST),
            ..m
        },
        SelfObservation::ResponseTruncation { .. } => MetaLatents {
            interruption_sensitivity: spec_add_clamped(
                m.interruption_sensitivity,
                TRUNCATION_BOOST,
            ),
            ..m
        },
        SelfObservation::ConfidenceMismatch { .. } => MetaLatents {
            confidence_penalty: spec_add_clamped(m.confidence_penalty, MISMATCH_PENALTY),
            ..m
        },
        SelfObservation::StableAlignment => MetaLatents {
            confidence_penalty: spec_sub_clamped(m.confidence_penalty, RECOVERY_PENALTY_RELIEF),
            interruption_sensitivity: spec_sub_clamped(
                m.interruption_sensitivity,
                RECOVERY_INTERRUPTION_RELIEF,
            ),
            ..m
        },
        SelfObservation::Confirmation => MetaLatents {
            confidence_penalty: spec_sub_clamped(m.confidence_penalty, RECOVERY_PENALTY_RELIEF),
            interruption_sensitivity: spec_sub_clamped(
                m.interruption_sensitivity,
                RECOVERY_INTERRUPTION_RELIEF,
            ),
            ..m
        },
    }
}

/// Addition clamped to one.
pub open spec fn spec_add_clamped(a: Score, b: Score) -> Score {
    if a + b <= crate::score::UNIT {
        (a + b) as u32
    } else {
        crate::score::UNIT
    }
}

/// Subtraction clamped to zero.
pub open spec fn spec_sub_clamped(a: Score, b: Score) -> Score {
    if a >= b {
        (a - b) as u32
    } else {
        0
    }
}

/// All observations folded in, oldest first.
pub open spec fn spec_apply_all(m: MetaLatents, os: Seq<SelfObservation>) -> MetaLatents
    decreases os.len(),
{
    if os.len() == 0 {
        m
    } else {
        spec_apply_obs(spec_apply_all(m, os.drop_last()), os.last())
    }
}

/// The decay applied after `elapsed` ticks, capped at one.
pub open spec fn spec_decay_amount(rate: u32, elapsed: u64) -> Score {
    if rate as int * elapsed as int <= crate::score::UNIT {
        (rate as int * elapsed as int) as u32
    } else {
        crate::score::UNIT
    }
}

/// The elapsed time the monitor charges: at least one tick, never negative.
pub open spec fn spec_monitor_elapsed(last: u64, now: u64) -> u64 {
    if now >= last {
        if now - last >= 1 {
            (now - last) as u64
        } else {
            1
        }
    } else {
        1
    }
}

/// The meta-latents a monitor pass produces: observations folded in, then
/// time-based healing.
pub open spec fn spec_monitor_pass(
    m: MetaLatents,
    os: Seq<SelfObservation>,
    elapsed: u64,
) -> MetaLatents {
    let after = spec_apply_all(m, os);
    MetaLatents {
        interruption_sensitivity: spec_sub_clamped(
            after.interruption_sensitivity,
            spec_decay_amount(META_DECAY_PER_TICK, elapsed),
        ),
        confidence_penalty: spec_sub_clamped(
            after.confidence_penalty,
            spec_decay_amount(PENALTY_DECAY_PER_TICK, elapsed),
        ),
        correction_bias: spec_sub_clamped(
            after.correction_bias,
            spec_decay_amount(META_DECAY_PER_TICK, elapsed),
        ),
    }
}

/// The passive observer of the system's own conduct.
#[derive(Debug)]
pub struct SelfObservationMonitor {
    pub scores: MetaLatents,
    pub last_tick: u64,
}

pub open spec fn monitor_ok(m: SelfObservationMonitor) -> bool {
    meta_ok(m.scores)
}

impl SelfObservationMonitor {
    /// A quiet monitor: all scores zero.
    pub fn new() -> (r: Self)
        ensures
            r.scores == (MetaLatents {
                interruption_sensitivity: 0u32,
                confidence_penalty: 0u32,
                correction_bias: 0u32,
            }),
            r.last_tick == 0,
            monitor_ok(r),
    {
        SelfObservationMonitor {
            scores: MetaLatents {
                interruption_sensitivity: 0,
                confidence_penalty: 0,
                correction_bias: 0,
            },
            last_tick: 0,
        }
    }

    /// One monitor pass: fold in the observations, heal with elapsed time,
    /// and emit the new meta-latents as a delta.
    pub fn tick(&mut self, current_tick: u64, incoming_events: &Vec<SelfObservation>) -> (r:
        Option<StateDelta>)
        requires
            monitor_ok(*old(self)),
        ensures
            monitor_ok(*final(self)),
            final(self).last_tick == current_tick,
            final(self).scores == spec_monitor_pass(
                old(self).scores,
                incoming_events@,
                spec_monitor_elapsed(old(self).last_tick, current_tick),
            ),
            r == Some(StateDelta::MetaLatentUpdate { delta: final(self).scores }),
    {
        let elapsed: u64 = if current_tick >= self.last_tick {
            let d = current_tick - self.last_tick;
            if d >= 1 {
                d
            } else {
                1
            }
        } else {
            1
        };
        self.last_tick = current_tick;
        let mut m = self.scores;
        let n: usize = incoming_events.len();
        let mut i: usize = 0;
        while i < n
            invariant
                i <= n,
                n == incoming_events@.len(),
                m == spec_apply_all(old(self).scores, incoming_events@.subrange(0, i as int)),
                meta_ok(m),
            decreases n - i,
        {
            proof {
                assert(incoming_events@.subrange(0, i + 1).drop_last() =~= incoming_events@.subrange(
                    0,
                    i as int,
                ));
                assert(incoming_events@.subrange(0, i + 1).last() == incoming_events@[i as int]);
            }
            match &incoming_events[i] {
                SelfObservation::UnexpectedInterruption { .. } => {
                    m.interruption_sensitivity = crate::score::add_clamped(
                        m.interruption_sensitivity,
                        INTERRUPTION_BOOST,
                    );
                },
                SelfObservation::UserCorrection { .. } => {
                    m.confidence_penalty = crate::score::add_clamped(
                        m.confidence_penalty,
                        CORRECTION_PENALTY,
                    );
                    m.correction_bias = crate::score::add_clamped(
                        m.correction_bias,
                        CORRECTION_BIAS_BOOST,
                    );
                },
                SelfObservation::ResponseTruncation { .. } => {
                    m.interruption_sensitivity = crate::score::add_clamped(
                        m.interruption_sensitivity,
                        TRUNCATION_BOOST,
                    );
                },
                SelfObservation::ConfidenceMismatch { .. } => {
                    m.confidence_penalty = crate::score::add_clamped(
                        m.confidence_penalty,
                        MISMATCH_PENALTY,
                    );
                },
                SelfObservation::StableAlignment => {
                    m.confidence_penalty = crate::score::sub_clamped(
                        m.confidence_penalty,
                        RECOVERY_PENALTY_RELIEF,
                    );
                    m.interruption_sensitivity = crate::score::sub_clamped(
                        m.interruption_sensitivity,
                        RECOVERY_INTERRUPTION_RELIEF,
                    );
                },
                SelfObservation::Confirmation => {
                    m.confidence_penalty = crate::score::sub_clamped(
                        m.confidence_penalty,
                        RECOVERY_PENALTY_RELIEF,
                    );
                    m.interruption_sensitivity = crate::score::sub_clamped(
                        m.interruption_sensitivity,
                        RECOVERY_INTERRUPTION_RELIEF,
                    );
                },
            }
            i = i + 1;
        }
        proof {
            assert(incoming_events@.subrange(0, n as int) =~= incoming_events@);
        }
        let fast_decay: u32 = if elapsed >= 100 {
            crate::score::UNIT
        } else {
            META_DECAY_PER_TICK * (elapsed as u32)
        };
        let slow_decay: u32 = if elapsed >= 200 {
            crate::score::UNIT
        } else {
            PENALTY_DECAY_PER_TICK * (elapsed as u32)
        };
        m.interruption_sensitivity = crate::score::sub_clamped(
            m.interruption_sensitivity,
            fast_decay,
        );
        m.confidence_penalty = crate::score::sub_clamped(m.confidence_penalty, slow_decay);
        m.correction_bias = crate::score::sub_clamped(m.correction_bias, fast_decay);
        self.scores = m;
        Some(StateDelta::MetaLatentUpdate { delta: m })
    }

    /// Read raw inputs for observation-worthy reactions: a "no" or "wrong"
    /// in text is a correction, a "stop" an unexpected interruption.
    pub fn observe_raw(&self, input: &InputEvent, _state: &SharedState) -> (r: Vec<
        SelfObservation,
    >)
        ensures
            ({
                let is_text_correction = match input.content {
                    InputContent::Text(t) => spec_contains_seq(spec_lower(t@), "no"@)
                        || spec_contains_seq(spec_lower(t@), "wrong"@),
                    _ => false,
                };
                let is_text_stop = match input.content {
                    InputContent::Text(t) => spec_contains_seq(spec_lower(t@), "stop"@),
                    _ => false,
                };
                &&& r@.len() == (if is_text_correction {
                    1int
                } else {
                    0int
                }) + (if is_text_stop {
                    1int
                } else {
                    0int
                })
                &&& is_text_correction ==> r@[0] == (SelfObservation::UserCorrection {
                    output_id: None,
                })
                &&& is_text_stop ==> r@.last() == (SelfObservation::UnexpectedInterruption {
                    output_id: None,
                })
            }),
    {
        let mut r: Vec<SelfObservation> = Vec::new();
        match &input.content {
            InputContent::Text(t) => {
                let lower = lower_chars(t.as_str());
                let no = chars_of("no");
                let wrong = chars_of("wrong");
                let stop = chars_of("stop");
                if contains_seq(&lower, &no) || contains_seq(&lower, &wrong) {
                    r.push(SelfObservation::UserCorrection { output_id: None });
                }
                if contains_seq(&lower, &stop) {
                    r.push(SelfObservation::UnexpectedInterruption { output_id: None });
                }
            },
            _ => {},
        }
        r
    }
}

} // verus!
