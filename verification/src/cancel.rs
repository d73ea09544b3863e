//! The cancellation registry: a pure decision from inputs to cancellation
//! deltas. A stop phrase cancels the root task.

use vstd::prelude::*;
use crate::event::{InputContent, InputEvent};
use crate::state::StateDelta;
use crate::text::{chars_of, lower_chars, spec_lower, spec_trim, trimmed_equals};

verus! {

/// Whether an input carries a stop phrase: text that, surrounding
/// whitespace removed and case ignored, reads exactly "stop".
pub open spec fn spec_is_stop(e: InputEvent) -> bool {
    match e.content {
        InputContent::Text(t) => spec_trim(spec_lower(t@)) == "stop"@,
        _ => false,
    }
}

/// How many of the inputs carry a stop phrase.
pub open spec fn spec_stop_count(inputs: Seq<InputEvent>) -> nat
    decreases inputs.len(),
{
    if inputs.len() == 0 {
        0
    } else {
        spec_stop_count(inputs.drop_last()) + if spec_is_stop(inputs.last()) {
            1nat
        } else {
            0nat
        }
    }
}

/// Observes inputs and decides what to cancel.
#[derive(Debug)]
pub struct CancellationRegistry;

impl CancellationRegistry {
    pub fn new() -> (r: Self)
        ensures
            true,
    {
        CancellationRegistry
    }

    /// Pure decision: one root-task cancellation per stop phrase among the
    /// inputs, and nothing else.
    pub fn process(&self, inputs: &Vec<InputEvent>) -> (r: Vec<StateDelta>)
        ensures
            r@.len() == spec_stop_count(inputs@),
            forall|i: int|
                0 <= i < r@.len() ==> ((#[trigger] r@[i]) matches StateDelta::TaskCanceled(t)
                    && t@ == "root_task"@),
            r@.len() > 0 <==> exists|i: int|
                0 <= i < inputs@.len() && spec_is_stop(#[trigger] inputs@[i]),
    {
        let mut r: Vec<StateDelta> = Vec::new();
        let stop = chars_of("stop");
        let n: usize = inputs.len();
        let mut i: usize = 0;
        while i < n
            invariant
                i <= n,
                n == inputs@.len(),
                stop@ == "stop"@,
                r@.len() == spec_stop_count(inputs@.subrange(0, i as int)),
                forall|j: int|
                    0 <= j < r@.len() ==> ((#[trigger] r@[j]) matches StateDelta::TaskCanceled(t)
                        && t@ == "root_task"@),
                r@.len() > 0 <==> exists|j: int|
                    0 <= j < i && spec_is_stop(#[trigger] inputs@[j]),
            decreases n - i,
        {
            proof {
                assert(inputs@.subrange(0, i + 1).drop_last() =~= inputs@.subrange(0, i as int));
                assert(inputs@.subrange(0, i + 1).last() == inputs@[i as int]);
            }
            match &inputs[i].content {
                InputContent::Text(t) => {
                    let lower = lower_chars(t.as_str());
                    if trimmed_equals(&lower, &stop) {
                        r.push(StateDelta::TaskCanceled("root_task".to_owned()));
                    }
                },
                _ => {},
            }
            i = i + 1;
        }
        proof {
            assert(inputs@.subrange(0, n as int) =~= inputs@);
        }
        r
    }
}

} // verus!
