//! Retry until success, with a fixed delay between attempts.

use vstd::prelude::*;

verus! {

/// A span of time in whole seconds.
#[derive(Clone, Copy, Debug, PartialEq, Eq)]
pub struct Delay {
    pub secs: u64,
}

impl Delay {
    /// No delay at all.
    pub open spec fn spec_zero() -> Delay {
        Delay { secs: 0 }
    }

    /// No delay at all.
    #[verifier::when_used_as_spec(spec_zero)]
    pub fn zero() -> (delay: Delay)
        ensures
            delay == Delay::spec_zero(),
    {
        Delay { secs: 0 }
    }

    /// A delay of `secs` seconds.
    pub open spec fn spec_from_secs(secs: u64) -> Delay {
        Delay { secs }
    }

    /// A delay of `secs` seconds.
    #[verifier::when_used_as_spec(spec_from_secs)]
    pub fn from_secs(secs: u64) -> (delay: Delay)
        ensures
            delay == Delay::spec_from_secs(secs),
    {
        Delay { secs }
    }
}

/// What to do after one attempt of an operation that is retried until it
/// succeeds.
#[derive(Debug, PartialEq, Eq)]
pub enum Retry<T, E> {
    /// The attempt succeeded: this is its value, and no further attempt is made.
    Done { value: T },
    /// The attempt failed with `error`: report it, wait `wait`, and try again.
    Again { error: E, wait: Delay },
}

/// The retry rule: success ends the retrying, and every failure asks for a
/// further attempt after the fixed delay.
pub open spec fn retry_step<T, E>(attempt: Result<T, E>, repeat: Delay) -> Retry<T, E> {
    match attempt {
        Ok(value) => Retry::Done { value },
        Err(error) => Retry::Again { error, wait: repeat },
    }
}

/// Decides what follows one attempt. On success the value is handed out. On
/// failure the error is handed back to be reported, and the next attempt is
/// due after `repeat`. No number of failures ends the retrying.
pub fn try_until<T, E>(attempt: Result<T, E>, repeat: Delay) -> (step: Retry<T, E>)
    ensures
        step == retry_step(attempt, repeat),
{
    match attempt {
        Ok(value) => Retry::Done { value },
        Err(error) => Retry::Again { error, wait: repeat },
    }
}

/// The number of failures that precede the first success in `attempts`, or
/// the number of all attempts where none succeeds.
pub open spec fn failures_before_success<T, E>(attempts: Seq<Result<T, E>>) -> nat
    decreases attempts.len(),
{
    if attempts.len() == 0 || attempts[0] is Ok {
        0
    } else {
        1 + failures_before_success(attempts.skip(1))
    }
}

/// The seconds spent waiting while `attempts` are made one after another
/// under the retry rule, up to the first success.
pub open spec fn seconds_waited<T, E>(attempts: Seq<Result<T, E>>, repeat: Delay) -> nat
    decreases attempts.len(),
{
    if attempts.len() == 0 {
        0
    } else {
        match retry_step(attempts[0], repeat) {
            Retry::Done { .. } => 0,
            Retry::Again { wait, .. } => wait.secs as nat + seconds_waited(
                attempts.skip(1),
                repeat,
            ),
        }
    }
}

/// Retrying never gives up and never changes its pace: a run of attempts
/// waits the fixed delay once for each failure before the first success.
pub proof fn lemma_fixed_delay<T, E>(attempts: Seq<Result<T, E>>, repeat: Delay)
    ensures
        seconds_waited(attempts, repeat) == failures_before_success(attempts) * repeat.secs,
    decreases attempts.len(),
{
    if attempts.len() != 0 && attempts[0] is Err {
        lemma_fixed_delay(attempts.skip(1), repeat);
        let k = failures_before_success(attempts.skip(1));
        assert((1 + k) * repeat.secs == repeat.secs + k * repeat.secs) by (nonlinear_arith);
    } else {
        assert(0 * repeat.secs == 0);
    }
}

} // verus!
