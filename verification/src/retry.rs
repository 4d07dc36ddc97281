//! The connect-retry and readiness-poll policy.
//!
//! Opening the bus connection retries every half second, with no limit
//! and no backoff growth, until an attempt succeeds; waiting for the
//! shared connection polls at the same fixed pace.  Either loop warns on
//! the first failed attempt and is then quiet until it succeeds, so a
//! long outage costs one log line, not one per attempt.  [`QuietRetry`]
//! decides, for each attempt's outcome, whether to stop, and whether the
//! warning is due; the host loop performs the attempt and the sleep.

use vstd::prelude::*;

verus! {

/// Milliseconds between two attempts.
pub const RETRY_INTERVAL_MS: u64 = 500;

/// What to do after one attempt: proceed on success, otherwise sleep
/// [`RETRY_INTERVAL_MS`] and try again, warning first if `log` is set.
#[derive(Clone, Copy, PartialEq, Eq, Structural, Debug)]
pub enum RetryDecision {
    Proceed,
    Sleep { log: bool },
}

/// Whether a failed attempt warns: only while nothing has been logged
/// yet.
pub open spec fn logs_now(logged: bool, success: bool) -> bool {
    !success && !logged
}

/// The log-suppression flag after an attempt.
pub open spec fn next_logged(logged: bool, success: bool) -> bool {
    logged || !success
}

/// The retry loop's memory: whether the current outage was already
/// logged.
pub struct QuietRetry {
    pub logged: bool,
}

impl QuietRetry {
    /// A fresh loop, which will warn on its first failure.
    pub fn new() -> (r: QuietRetry)
        ensures
            !r.logged,
    {
        QuietRetry { logged: false }
    }

    /// Decides on one attempt's outcome.
    pub fn attempt(&mut self, success: bool) -> (d: RetryDecision)
        ensures
            final(self).logged == next_logged(old(self).logged, success),
            success ==> d == RetryDecision::Proceed,
            !success ==> d == (RetryDecision::Sleep { log: logs_now(old(self).logged, success) }),
    {
        if success {
            RetryDecision::Proceed
        } else {
            let log = !self.logged;
            self.logged = true;
            RetryDecision::Sleep { log }
        }
    }
}

/// How many attempts a run makes on the given outcomes: one per failure,
/// stopping at the first success.
pub open spec fn attempts_used(outcomes: Seq<bool>) -> nat
    decreases outcomes.len(),
{
    if outcomes.len() == 0 {
        0
    } else if outcomes[0] {
        1
    } else {
        1 + attempts_used(outcomes.skip(1))
    }
}

/// How many warnings a run starting with the given suppression flag
/// writes on the given outcomes.
pub open spec fn logs_emitted(logged: bool, outcomes: Seq<bool>) -> nat
    decreases outcomes.len(),
{
    if outcomes.len() == 0 {
        0
    } else if outcomes[0] {
        0
    } else {
        (if logs_now(logged, false) {
            1nat
        } else {
            0nat
        }) + logs_emitted(next_logged(logged, false), outcomes.skip(1))
    }
}

/// Once the warning was written, the rest of the outage is silent.
proof fn lemma_logged_runs_silently(outcomes: Seq<bool>)
    ensures
        logs_emitted(true, outcomes) == 0,
    decreases outcomes.len(),
{
    if outcomes.len() > 0 && !outcomes[0] {
        lemma_logged_runs_silently(outcomes.skip(1));
    }
}

/// Retry convergence law: against a broker that refuses the first `n`
/// attempts and accepts the next, a fresh retry loop stops right at that
/// success — `n + 1` attempts in all — and writes the connection-failed
/// warning exactly once if there was any failure, never more, however
/// large `n` is.
pub proof fn lemma_retry_convergence(outcomes: Seq<bool>, n: int)
    requires
        0 <= n < outcomes.len(),
        outcomes[n],
        forall|i: int| 0 <= i < n ==> !outcomes[i],
    ensures
        attempts_used(outcomes) == n + 1,
        logs_emitted(false, outcomes) == if n == 0 {
            0int
        } else {
            1int
        },
    decreases n,
{
    if n == 0 {
    } else {
        let rest = outcomes.skip(1);
        assert(rest[n - 1]);
        assert(forall|i: int| 0 <= i < n - 1 ==> !rest[i]);
        lemma_retry_convergence(rest, n - 1);
        lemma_logged_runs_silently(rest);
    }
}

} // verus!
