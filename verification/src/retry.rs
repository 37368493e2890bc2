//! The bounded-retry state machine. An operation is attempted up to
//! `RETRY_AMOUNT + 1` times; between failed attempts the caller sleeps
//! `RETRY_TIMEOUT` milliseconds. The machine here makes every decision; the
//! caller only performs the attempt and the sleep, so the same machine
//! serves the blocking and the suspending variant alike.
use vstd::prelude::*;

use crate::{RETRY_AMOUNT, RETRY_TIMEOUT};

verus! {

/// How a finished retry sequence ended.
#[derive(Debug)]
pub enum RetryOutcome<O, E> {
    /// Some attempt succeeded; its value.
    Success(O),
    /// Every attempt failed; the last error.
    Exhausted(E),
}

/// What the caller must do after recording one attempt.
#[derive(Debug)]
pub enum RetryNext<O, E> {
    /// Stop with this outcome.
    Finished(RetryOutcome<O, E>),
    /// Sleep this many milliseconds, then attempt again.
    SleepThenRetry(u64),
}

/// The retries made so far.
pub struct RetryState {
    pub attempts: u32,
}

impl RetryState {
    /// A fresh sequence: nothing attempted yet.
    pub fn new() -> (r: RetryState)
        ensures
            r.attempts == 0,
    {
        RetryState { attempts: 0 }
    }

    /// Records one attempt's outcome and decides what follows: the first
    /// success ends the sequence at once; a failure before the last allowed
    /// attempt asks for a `RETRY_TIMEOUT` sleep and another try; a failure
    /// on the last allowed attempt ends the sequence with that error.
    pub fn record<O, E>(&mut self, outcome: Result<O, E>) -> (r: RetryNext<O, E>)
        requires
            old(self).attempts <= RETRY_AMOUNT,
        ensures
            final(self).attempts == old(self).attempts + 1,
            outcome matches Ok(v) ==> (r matches RetryNext::Finished(RetryOutcome::Success(w))
                && w == v),
            outcome matches Err(e) ==> {
                if old(self).attempts < RETRY_AMOUNT {
                    r matches RetryNext::SleepThenRetry(ms) && ms == RETRY_TIMEOUT
                } else {
                    r matches RetryNext::Finished(RetryOutcome::Exhausted(e2)) && e2 == e
                }
            },
    {
        self.attempts = self.attempts + 1;
        match outcome {
            Ok(v) => RetryNext::Finished(RetryOutcome::Success(v)),
            Err(e) => {
                if self.attempts <= RETRY_AMOUNT {
                    RetryNext::SleepThenRetry(RETRY_TIMEOUT)
                } else {
                    RetryNext::Finished(RetryOutcome::Exhausted(e))
                }
            },
        }
    }
}

/// What driving the machine over a fixed attempt history yields: the
/// outcome, and how many attempts were consumed.
pub open spec fn spec_retry_run<O, E>(outcomes: Seq<Result<O, E>>, attempts_before: int) -> Option<
    (RetryOutcome<O, E>, int),
>
    decreases outcomes.len(),
{
    if outcomes.len() == 0 {
        None
    } else {
        match outcomes[0] {
            Ok(v) => Some((RetryOutcome::Success(v), attempts_before + 1)),
            Err(e) => {
                if attempts_before < RETRY_AMOUNT {
                    spec_retry_run(outcomes.skip(1), attempts_before + 1)
                } else {
                    Some((RetryOutcome::Exhausted(e), attempts_before + 1))
                }
            },
        }
    }
}

/// Law: an operation that fails `k` times with `k` at most `RETRY_AMOUNT`
/// and then succeeds ends in that success, after exactly `k + 1` attempts.
pub proof fn lemma_retry_first_success<O, E>(outcomes: Seq<Result<O, E>>, k: int)
    requires
        0 <= k <= RETRY_AMOUNT,
        outcomes.len() > k,
        forall|i: int| 0 <= i < k ==> outcomes[i] is Err,
        outcomes[k] is Ok,
    ensures
        spec_retry_run(outcomes, 0) matches Some(p) && p.0 == RetryOutcome::<O, E>::Success(
            outcomes[k]->Ok_0,
        ) && p.1 == k + 1,
{
    lemma_retry_run_step(outcomes, 0, k);
}

/// Law: an operation that always fails ends exhausted with the error of its
/// last attempt, after exactly `RETRY_AMOUNT + 1` attempts; every pause
/// between attempts that `record` asks for is `RETRY_TIMEOUT` milliseconds.
pub proof fn lemma_retry_exhausted<O, E>(outcomes: Seq<Result<O, E>>)
    requires
        outcomes.len() > RETRY_AMOUNT,
        forall|i: int| 0 <= i <= RETRY_AMOUNT ==> outcomes[i] is Err,
    ensures
        spec_retry_run(outcomes, 0) matches Some(p) && p.0 == RetryOutcome::<O, E>::Exhausted(
            outcomes[RETRY_AMOUNT as int]->Err_0,
        ) && p.1 == RETRY_AMOUNT + 1,
{
    lemma_retry_run_step(outcomes, 0, RETRY_AMOUNT as int);
}

/// Running from attempt `a` skips the first `k` failures and resolves at
/// index `k`.
proof fn lemma_retry_run_step<O, E>(outcomes: Seq<Result<O, E>>, a: int, k: int)
    requires
        0 <= a,
        a + k <= RETRY_AMOUNT,
        outcomes.len() > k,
        0 <= k,
        forall|i: int| 0 <= i < k ==> outcomes[i] is Err,
    ensures
        spec_retry_run(outcomes, a) == (match outcomes[k] {
            Ok(v) => Some((RetryOutcome::<O, E>::Success(v), a + k + 1)),
            Err(e) => {
                if a + k < RETRY_AMOUNT {
                    spec_retry_run(outcomes.skip(k + 1), a + k + 1)
                } else {
                    Some((RetryOutcome::<O, E>::Exhausted(e), a + k + 1))
                }
            },
        }),
    decreases k,
{
    if k == 0 {
        assert(outcomes.skip(1) =~= outcomes.skip((0 + 1) as int));
    } else {
        assert(outcomes[0] is Err);
        assert(forall|i: int| 0 <= i < k - 1 ==> outcomes.skip(1)[i] == outcomes[i + 1]);
        lemma_retry_run_step(outcomes.skip(1), a + 1, k - 1);
        assert(outcomes.skip(1)[k - 1] == outcomes[k]);
        assert(outcomes.skip(1).skip(k) =~= outcomes.skip(k + 1));
    }
}

} // verus!
