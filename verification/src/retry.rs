//! Trying a failing operation again.

use std::time::Duration;
use vstd::prelude::*;

verus! {

/// How often an operation is tried again, and how long to wait at most before
/// that.
#[derive(Debug, Clone, Copy)]
pub struct RetryConfig {
    max_retries: u32,
    max_backoff: Duration,
}

impl RetryConfig {
    /// How often the operation is tried again at most.
    pub closed spec fn retries(self) -> u32 {
        self.max_retries
    }

    /// How long to wait at most.
    pub closed spec fn backoff(self) -> Duration {
        self.max_backoff
    }

    pub fn new(max_retries: u32, max_backoff: Duration) -> (r: Self)
        ensures
            r.retries() == max_retries,
            r.backoff() == max_backoff,
    {
        RetryConfig { max_retries, max_backoff }
    }

    /// How long to wait at most before trying again.
    pub fn max_backoff(&self) -> (r: Duration)
        ensures
            r == self.backoff(),
    {
        self.max_backoff
    }
}

/// What to do after an attempt.
#[derive(Debug, PartialEq, Eq)]
pub enum RetryStep<T, E> {
    /// Wait, and try again; the number of retries made with that one.
    Again(u32),
    /// Stop with this result.
    Done(Result<T, E>),
}

/// What to do after the attempt that `made` retries went before.
pub open spec fn after_attempt<T, E>(
    max_retries: u32,
    made: u32,
    outcome: Result<T, E>,
) -> RetryStep<T, E> {
    match outcome {
        Ok(value) => RetryStep::Done(Ok(value)),
        Err(error) => if made < max_retries {
            RetryStep::Again((made + 1) as u32)
        } else {
            RetryStep::Done(Err(error))
        },
    }
}

/// A run of attempts.
#[derive(Debug)]
pub struct Retry {
    config: RetryConfig,
    made: u32,
}

impl Retry {
    /// How the run is configured.
    pub closed spec fn config(self) -> RetryConfig {
        self.config
    }

    /// How many retries were made.
    pub closed spec fn made(self) -> u32 {
        self.made
    }

    /// A run before its first attempt.
    pub fn new(config: RetryConfig) -> (r: Self)
        ensures
            r.config() == config,
            r.made() == 0,
    {
        Retry { config, made: 0 }
    }

    /// Decides what to do after an attempt.
    pub fn with_retry<T, E>(&mut self, outcome: Result<T, E>) -> (r: RetryStep<T, E>)
        ensures
            final(self).config() == old(self).config(),
            r == after_attempt(old(self).config().retries(), old(self).made(), outcome),
            final(self).made() == (if r is Again {
                r->Again_0
            } else {
                old(self).made()
            }),
    {
        match outcome {
            Ok(value) => RetryStep::Done(Ok(value)),
            Err(error) => if self.made < self.config.max_retries {
                self.made = self.made + 1;
                RetryStep::Again(self.made)
            } else {
                RetryStep::Done(Err(error))
            },
        }
    }
}

/// What a run comes to, and after how many attempts, where `made` retries were
/// made and attempt number `i`, from 0 on, would end with `outcomes(i)`.
pub open spec fn run<T, E>(
    max_retries: u32,
    made: u32,
    outcomes: spec_fn(nat) -> Result<T, E>,
) -> (nat, Result<T, E>)
    decreases max_retries - made,
{
    match after_attempt(max_retries, made, outcomes(made as nat)) {
        RetryStep::Done(result) => (made as nat + 1, result),
        RetryStep::Again(next) => if made < max_retries {
            run(max_retries, next, outcomes)
        } else {
            (made as nat + 1, outcomes(made as nat))
        },
    }
}

proof fn lemma_run<T, E>(max_retries: u32, made: u32, outcomes: spec_fn(nat) -> Result<T, E>)
    requires
        made <= max_retries,
    ensures
        ({
            let (attempts, result) = run(max_retries, made, outcomes);
            &&& made < attempts <= max_retries + 1
            &&& result == outcomes((attempts - 1) as nat)
            &&& result is Err ==> attempts == max_retries + 1
            &&& forall|i: nat| made <= i < attempts - 1 ==> (#[trigger] outcomes(i)) is Err
        }),
    decreases max_retries - made,
{
    if outcomes(made as nat) is Err && made < max_retries {
        lemma_run(max_retries, (made + 1) as u32, outcomes);
        let (attempts, result) = run(max_retries, made, outcomes);
        assert forall|i: nat| made <= i < attempts - 1 implies (#[trigger] outcomes(i)) is Err by {
            if i > made {
                assert((made + 1) as u32 <= i);
            }
        }
    }
}

/// An operation is tried at least once, and at most once more than it is tried
/// again. The run stops at the first success and ends with that; without one it
/// ends with the last failure, when every retry was made.
pub proof fn law_attempts<T, E>(max_retries: u32, outcomes: spec_fn(nat) -> Result<T, E>)
    ensures
        ({
            let (attempts, result) = run(max_retries, 0, outcomes);
            &&& 1 <= attempts <= max_retries + 1
            &&& result == outcomes((attempts - 1) as nat)
            &&& result is Err ==> attempts == max_retries + 1
            &&& forall|i: nat| i < attempts - 1 ==> (#[trigger] outcomes(i)) is Err
        }),
{
    lemma_run(max_retries, 0, outcomes);
}

} // verus!
