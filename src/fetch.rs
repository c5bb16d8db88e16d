use vstd::prelude::*;

use crate::feed::FeedError;

verus! {

/// What to do after a fetch attempt failed in transport.
#[derive(Debug, Clone, Copy, PartialEq, Eq)]
pub enum FetchStep {
    /// Try again with the same parameters.
    Retry,
    /// Stop: the fetch fails with this error.
    Fail(FeedError),
}

/// How many attempts a fetch configured with `max_retries` makes at most.
pub open spec fn attempts_allowed(max_retries: nat) -> nat {
    if max_retries == 0 {
        1
    } else {
        max_retries
    }
}

/// Whether a failed attempt, made while `left` attempts were left
/// (counting that one), ends the fetch.
pub open spec fn gives_up(left: nat) -> bool {
    left <= 1
}

/// The attempts that a fetch makes against a transport that always fails,
/// when `left` attempts are left.
pub open spec fn failing_run(left: nat) -> nat
    decreases left,
{
    if gives_up(left) {
        1
    } else {
        1 + failing_run((left - 1) as nat)
    }
}

/// Retry bookkeeping of one feed fetch.
#[derive(Debug, Clone, Copy)]
pub struct FetchRetry {
    /// The attempts still allowed, counting the one under way.
    pub attempts_left: usize,
}

impl FetchRetry {
    /// Retries for a fetch that may be tried `max_retries` times (once
    /// when that is zero).
    pub fn new(max_retries: usize) -> (r: Self)
        ensures
            r.attempts_left == attempts_allowed(max_retries as nat),
    {
        FetchRetry { attempts_left: if max_retries == 0 { 1 } else { max_retries } }
    }

    /// Decides what follows a failed attempt.
    pub fn on_failure(&mut self) -> (r: FetchStep)
        requires
            old(self).attempts_left >= 1,
        ensures
            final(self).attempts_left == old(self).attempts_left - 1,
            r is Retry <==> !gives_up(old(self).attempts_left as nat),
            r matches FetchStep::Fail(e) ==> e is NoResponse,
    {
        self.attempts_left = self.attempts_left - 1;
        if self.attempts_left == 0 {
            FetchStep::Fail(FeedError::NoResponse)
        } else {
            FetchStep::Retry
        }
    }
}

/// Against a transport that always fails, a fetch configured with
/// `max_retries` attempts makes exactly that many attempts (one when it
/// is zero) before it fails.
pub proof fn law_retry_exhaustion(max_retries: nat)
    ensures
        failing_run(attempts_allowed(max_retries)) == attempts_allowed(max_retries),
{
    lemma_failing_run(attempts_allowed(max_retries));
}

proof fn lemma_failing_run(left: nat)
    requires
        left >= 1,
    ensures
        failing_run(left) == left,
    decreases left,
{
    if !gives_up(left) {
        lemma_failing_run((left - 1) as nat);
    }
}

} // verus!
