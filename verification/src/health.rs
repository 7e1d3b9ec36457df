//! Liveness probe.

use vstd::prelude::*;

verus! {

/// The body of every liveness answer.
pub open spec fn health_body() -> Seq<char> {
    seq!['O', 'K']
}

/// Answers a liveness probe. There is no input, no state and no way to
/// fail: the answer is always the text `OK`.
pub fn health_check() -> (body: &'static str)
    ensures
        body@ == health_body(),
{
    proof {
        reveal_strlit("OK");
    }
    let body = "OK";
    assert(body@ =~= health_body());
    body
}

} // verus!
