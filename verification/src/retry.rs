//! The retry layer around a flaky read-only RPC call.
//!
//! Every error is treated as transient: a failed call is repeated, either
//! at once or after a fixed delay, with no retry ceiling.  The decision
//! logic is modelled here over a recorded trace of call outcomes; the
//! caller performs the actual calls and waits, one step per trace entry.

use vstd::prelude::*;

verus! {

/// One failed on-chain read, as the retry layer sees it.
#[derive(Clone, Copy, Debug, PartialEq, Eq, Structural)]
pub enum FetchError {
    /// The endpoint could not be reached, or the call timed out.
    Transport,
    /// The call returned, but its payload did not decode as expected.
    Decode,
}

/// What to do after a failed call: try again at once, or wait first (the
/// delay is in milliseconds).  Retrying is unbounded either way.
#[derive(Clone, Copy, Debug, PartialEq, Eq, Structural)]
pub enum RetryPolicy {
    Repeat,
    WaitRetry(u64),
}

/// Milliseconds waited before the retry that `p` prescribes.
pub open spec fn policy_delay(p: RetryPolicy) -> int {
    match p {
        RetryPolicy::Repeat => 0,
        RetryPolicy::WaitRetry(d) => d as int,
    }
}

/// Decision taken for a failed network call: wait 70 ms, then try again,
/// whatever the error was.
pub fn handle_network_err(_e: &FetchError) -> (r: RetryPolicy)
    ensures
        r == RetryPolicy::WaitRetry(70u64),
{
    RetryPolicy::WaitRetry(70)
}

/// Index of the first successful outcome in a trace, if any.
pub open spec fn first_ok_index<T>(s: Seq<Result<T, FetchError>>) -> Option<int>
    decreases s.len(),
{
    if s.len() == 0 {
        None
    } else if s[0] is Ok {
        Some(0int)
    } else {
        match first_ok_index(s.drop_first()) {
            Some(i) => Some(i + 1),
            None => None,
        }
    }
}

proof fn lemma_first_ok_at<T>(s: Seq<Result<T, FetchError>>, i: int)
    requires
        0 <= i <= s.len(),
        forall|j: int| 0 <= j < i ==> s[j] is Err,
        i < s.len() ==> s[i] is Ok,
    ensures
        first_ok_index(s) == if i < s.len() {
            Some(i)
        } else {
            None::<int>
        },
    decreases i, s.len(),
{
    if s.len() == 0 {
    } else if i == 0 {
        if s.len() > 0 && i == s.len() {
        }
    } else {
        assert(s[0] is Err);
        lemma_first_ok_at(s.drop_first(), i - 1);
    }
}

proof fn lemma_u64_mul_fits(a: int, b: int)
    by (nonlinear_arith)
    requires
        0 <= a <= u64::MAX,
        0 <= b <= u64::MAX,
    ensures
        a * b <= u128::MAX,
{
    assert(a * b <= u64::MAX * u64::MAX);
}

/// Replays the unbounded retry of one call over a recorded trace of
/// outcomes: the result is the first success, and the time spent waiting is
/// the policy's delay once per failed attempt before it.  A trace with no
/// success stands for an endpoint that is still down when recording ended,
/// so no result is produced.
pub fn run_retry<T>(outcomes: Vec<Result<T, FetchError>>, policy: RetryPolicy) -> (r: (
    Option<T>,
    u128,
))
    ensures
        match first_ok_index(outcomes@) {
            Some(i) => r.0 == Some(outcomes@[i]->Ok_0) && r.1 == i * policy_delay(policy),
            None => r.0 is None && r.1 == outcomes@.len() * policy_delay(policy),
        },
{
    let delay: u64 = match policy {
        RetryPolicy::Repeat => 0,
        RetryPolicy::WaitRetry(d) => d,
    };
    let mut outcomes = outcomes;
    let ghost s = outcomes@;
    let n = outcomes.len();
    let mut i: usize = 0;
    let mut found: bool = false;
    while i < n && !found
        invariant
            i <= n,
            n == s.len(),
            outcomes@ == s,
            forall|j: int| 0 <= j < i ==> s[j] is Err,
            found ==> i < n && s[i as int] is Ok,
        decreases n - i, if found {
            0int
        } else {
            1int
        },
    {
        match &outcomes[i] {
            Ok(_) => {
                found = true;
            },
            Err(e) => {
                let _decision = handle_network_err(e);
                i += 1;
            },
        }
    }
    proof {
        lemma_u64_mul_fits(i as int, delay as int);
        lemma_first_ok_at(s, i as int);
    }
    let waited: u128 = (i as u128) * (delay as u128);
    if found {
        let hit = outcomes.remove(i);
        match hit {
            Ok(v) => (Some(v), waited),
            Err(_) => {
                proof {
                    assert(false);
                }
                (None, waited)
            },
        }
    } else {
        (None, waited)
    }
}

} // verus!
