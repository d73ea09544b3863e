//! Realization: turning a symbolic snapshot into the text to speak, hedged
//! or direct as crystallization decided.

use vstd::prelude::*;
use crate::gate::{Claim, CrystallizationDecision, SymbolicSnapshot};

verus! {

/// The claims' contents joined with single spaces, in order.
pub open spec fn spec_joined(claims: Seq<Claim>) -> Seq<char>
    decreases claims.len(),
{
    if claims.len() == 0 {
        Seq::empty()
    } else if claims.len() == 1 {
        claims[0].content@
    } else {
        spec_joined(claims.drop_last()) + " "@ + claims.last().content@
    }
}

/// What `realize` produces: the joined claims, hedged under `AllowPartial`,
/// stated directly under `AllowHard`, and empty for verdicts that never
/// reach realization. With nothing to claim, a fixed probe sentence is
/// produced instead.
pub open spec fn spec_realized(claims: Seq<Claim>, decision: CrystallizationDecision) -> Seq<
    char,
> {
    let content = spec_joined(claims);
    if content.len() == 0 {
        "Speaking from a quiet state; interrupt at any time to stop this message."@
    } else {
        match decision {
            CrystallizationDecision::AllowPartial => "It seems that "@ + content + "..."@,
            CrystallizationDecision::AllowHard => content + "."@,
            _ => Seq::empty(),
        }
    }
}

/// Pure realization of a snapshot into text.
pub fn realize(snapshot: &SymbolicSnapshot, decision: &CrystallizationDecision) -> (r: String)
    ensures
        r@ == spec_realized(snapshot.claims@, *decision),
{
    let mut joined = String::new();
    let n: usize = snapshot.claims.len();
    let mut i: usize = 0;
    while i < n
        invariant
            i <= n,
            n == snapshot.claims@.len(),
            joined@ == spec_joined(snapshot.claims@.subrange(0, i as int)),
        decreases n - i,
    {
        proof {
            assert(snapshot.claims@.subrange(0, i + 1).drop_last() =~= snapshot.claims@.subrange(
                0,
                i as int,
            ));
            assert(snapshot.claims@.subrange(0, i + 1).last() == snapshot.claims@[i as int]);
        }
        if i > 0 {
            joined.append(" ");
        }
        joined.append(snapshot.claims[i].content.as_str());
        i = i + 1;
    }
    proof {
        assert(snapshot.claims@.subrange(0, n as int) =~= snapshot.claims@);
    }
    if joined.as_str().is_empty() {
        return "Speaking from a quiet state; interrupt at any time to stop this message."
            .to_owned();
    }
    match decision {
        CrystallizationDecision::AllowPartial => {
            let mut r = "It seems that ".to_owned();
            r.append(joined.as_str());
            r.append("...");
            r
        },
        CrystallizationDecision::AllowHard => {
            let mut r = joined;
            r.append(".");
            r
        },
        _ => String::new(),
    }
}

} // verus!
