//! Bounded retry of a fallible operation. The operation itself is run by the
//! caller; this module decides, after each attempt, whether the caller is
//! done, has to try again, or has to give up.

use vstd::prelude::*;

verus! {

/// Number of attempts that the harness grants to an interaction with the
/// target.
pub const DEFAULT_ATTEMPTS: u32 = 3;

/// The attempts that are left to an operation, and those that have failed.
#[derive(Clone, Copy, Debug)]
pub struct RetryState {
    remaining: u32,
    failed: u32,
}

/// What to do after an attempt.
#[derive(Debug)]
pub enum RetryStep<T, E> {
    /// The attempt succeeded with `value`, after `failed` failed attempts.
    Succeeded { value: T, failed: u32 },
    /// The attempt failed with `error`, which is to be reported; the
    /// operation is to be run again.
    Retry { error: E, state: RetryState },
    /// The attempt failed with `error` and no attempt is left; `failed`
    /// attempts failed in all. This is to be reported as exhaustion.
    Exhausted { error: E, failed: u32 },
}

/// Where a run of attempts stands, as plain data.
pub enum RetryEnd<T, E> {
    /// Attempts are left and none has succeeded.
    Pending { remaining: nat, failed: nat },
    Succeeded { value: T, failed: nat },
    Exhausted { error: E, failed: nat },
}

/// Where a run stands that had `remaining` attempts left and `failed` failed
/// ones behind it, after the attempts whose results are `outcomes`. Results
/// after the one that ends the run are not looked at: the operation is not
/// called again.
pub open spec fn retry_end<T, E>(remaining: nat, failed: nat, outcomes: Seq<Result<T, E>>) -> RetryEnd<
    T,
    E,
>
    decreases outcomes.len(),
{
    if outcomes.len() == 0 {
        RetryEnd::Pending { remaining, failed }
    } else {
        match outcomes[0] {
            Ok(value) => RetryEnd::Succeeded { value, failed },
            Err(error) => if remaining <= 1 {
                RetryEnd::Exhausted { error, failed: failed + 1 }
            } else {
                retry_end((remaining - 1) as nat, failed + 1, outcomes.drop_first())
            },
        }
    }
}

impl<T, E> RetryStep<T, E> {
    /// The step as plain data.
    pub open spec fn end(self) -> RetryEnd<T, E> {
        match self {
            RetryStep::Succeeded { value, failed } => RetryEnd::Succeeded {
                value,
                failed: failed as nat,
            },
            RetryStep::Retry { error, state } => RetryEnd::Pending {
                remaining: state.remaining_attempts(),
                failed: state.failed_attempts(),
            },
            RetryStep::Exhausted { error, failed } => RetryEnd::Exhausted {
                error,
                failed: failed as nat,
            },
        }
    }
}

impl RetryState {
    #[verifier::type_invariant]
    spec fn well_formed(self) -> bool {
        self.remaining >= 1 && self.remaining + self.failed <= u32::MAX
    }

    /// Attempts that are left, the next one included.
    pub closed spec fn remaining_attempts(self) -> nat {
        self.remaining as nat
    }

    /// Attempts that have failed.
    pub closed spec fn failed_attempts(self) -> nat {
        self.failed as nat
    }

    /// A run of at most `attempts` attempts, none of them made yet.
    pub fn new(attempts: u32) -> (state: RetryState)
        requires
            attempts > 0,
        ensures
            state.remaining_attempts() == attempts,
            state.failed_attempts() == 0,
    {
        RetryState { remaining: attempts, failed: 0 }
    }

    /// Attempts that are left, the next one included; never zero.
    pub fn remaining(&self) -> (n: u32)
        ensures
            n == self.remaining_attempts(),
            n > 0,
    {
        proof {
            use_type_invariant(self);
        }
        self.remaining
    }

    /// Attempts that have failed.
    pub fn failed(&self) -> (n: u32)
        ensures
            n == self.failed_attempts(),
    {
        self.failed
    }

    /// Takes in the result of one attempt. Success ends the run. A failure
    /// uses up one attempt: if that was the last one the run is exhausted and
    /// the failure is handed back as the final one, else the operation is to
    /// be run again.
    pub fn record<T, E>(self, outcome: Result<T, E>) -> (step: RetryStep<T, E>)
        ensures
            step.end() == retry_end(
                self.remaining_attempts(),
                self.failed_attempts(),
                seq![outcome],
            ),
            match outcome {
                Ok(value) => step matches RetryStep::Succeeded { value: v, failed } && v == value
                    && failed == self.failed_attempts(),
                Err(error) => if self.remaining_attempts() == 1 {
                    step matches RetryStep::Exhausted { error: e, failed } && e == error && failed
                        == self.failed_attempts() + 1
                } else {
                    step matches RetryStep::Retry { error: e, state } && e == error
                        && state.remaining_attempts() == self.remaining_attempts() - 1
                        && state.failed_attempts() == self.failed_attempts() + 1
                },
            },
    {
        proof {
            use_type_invariant(&self);
            assert(seq![outcome].drop_first() =~= Seq::<Result<T, E>>::empty());
            reveal_with_fuel(retry_end, 2);
        }
        match outcome {
            Ok(value) => RetryStep::Succeeded { value, failed: self.failed },
            Err(error) => {
                if self.remaining == 1 {
                    RetryStep::Exhausted { error, failed: self.failed + 1 }
                } else {
                    RetryStep::Retry {
                        error,
                        state: RetryState {
                            remaining: self.remaining - 1,
                            failed: self.failed + 1,
                        },
                    }
                }
            },
        }
    }
}

/// Taking in the results one after the other is taking them in all at once.
pub proof fn lemma_retry_end_split<T, E>(
    remaining: nat,
    failed: nat,
    first: Seq<Result<T, E>>,
    second: Seq<Result<T, E>>,
)
    ensures
        retry_end(remaining, failed, first + second) == match retry_end(remaining, failed, first) {
            RetryEnd::Pending { remaining: r, failed: f } => retry_end(r, f, second),
            end => end,
        },
    decreases first.len(),
{
    if first.len() == 0 {
        assert(first + second =~= second);
    } else {
        assert((first + second).drop_first() =~= first.drop_first() + second);
        assert((first + second)[0] == first[0]);
        if first[0] is Err && remaining > 1 {
            lemma_retry_end_split((remaining - 1) as nat, failed + 1, first.drop_first(), second);
        }
    }
}

/// An operation that fails exactly `k` times, with `k` below the number of
/// attempts, and then succeeds: the run succeeds with that value and reports
/// `k` failed attempts, having made `k + 1` attempts.
pub proof fn lemma_retry_succeeds_after_failures<T, E>(
    attempts: nat,
    outcomes: Seq<Result<T, E>>,
    k: nat,
)
    requires
        k < attempts,
        k < outcomes.len(),
        forall|i: int| 0 <= i < k ==> (#[trigger] outcomes[i]) is Err,
        outcomes[k as int] is Ok,
    ensures
        retry_end(attempts, 0, outcomes) == (RetryEnd::<T, E>::Succeeded {
            value: outcomes[k as int]->Ok_0,
            failed: k,
        }),
{
    lemma_retry_run(attempts, 0, outcomes, k);
}

/// An operation that always fails: the run is exhausted by exactly
/// `attempts` attempts and hands back the failure of the last of them.
pub proof fn lemma_retry_exhausts<T, E>(attempts: nat, outcomes: Seq<Result<T, E>>)
    requires
        attempts > 0,
        outcomes.len() >= attempts,
        forall|i: int| 0 <= i < attempts ==> (#[trigger] outcomes[i]) is Err,
    ensures
        retry_end(attempts, 0, outcomes) == (RetryEnd::<T, E>::Exhausted {
            error: outcomes[attempts - 1]->Err_0,
            failed: attempts,
        }),
        forall|n: int|
            0 <= n < attempts ==> #[trigger] retry_end(attempts, 0, outcomes.take(n))
                == (RetryEnd::<T, E>::Pending { remaining: (attempts - n) as nat, failed: n as nat }),
{
    lemma_retry_run(attempts, 0, outcomes, (attempts - 1) as nat);
    assert forall|n: int| 0 <= n < attempts implies #[trigger] retry_end(
        attempts,
        0,
        outcomes.take(n),
    ) == (RetryEnd::<T, E>::Pending { remaining: (attempts - n) as nat, failed: n as nat }) by {
        lemma_retry_pending(attempts, 0, outcomes.take(n));
    }
}

/// A run whose attempts all failed, with attempts to spare, is pending.
proof fn lemma_retry_pending<T, E>(remaining: nat, failed: nat, outcomes: Seq<Result<T, E>>)
    requires
        outcomes.len() < remaining,
        forall|i: int| 0 <= i < outcomes.len() ==> (#[trigger] outcomes[i]) is Err,
    ensures
        retry_end(remaining, failed, outcomes) == (RetryEnd::<T, E>::Pending {
            remaining: (remaining - outcomes.len()) as nat,
            failed: failed + outcomes.len(),
        }),
    decreases outcomes.len(),
{
    if outcomes.len() > 0 {
        assert(outcomes[0] is Err);
        assert forall|i: int| 0 <= i < outcomes.drop_first().len() implies (
        #[trigger] outcomes.drop_first()[i]) is Err by {
            assert(outcomes.drop_first()[i] == outcomes[i + 1]);
        }
        lemma_retry_pending((remaining - 1) as nat, failed + 1, outcomes.drop_first());
    }
}

/// A run in which the first `k` attempts fail, with `k` below the number of
/// attempts left, ends with attempt `k`.
proof fn lemma_retry_run<T, E>(remaining: nat, failed: nat, outcomes: Seq<Result<T, E>>, k: nat)
    requires
        k < remaining,
        k < outcomes.len(),
        forall|i: int| 0 <= i < k ==> (#[trigger] outcomes[i]) is Err,
    ensures
        retry_end(remaining, failed, outcomes) == match outcomes[k as int] {
            Ok(value) => RetryEnd::Succeeded { value, failed: failed + k },
            Err(error) => if remaining == k + 1 {
                RetryEnd::Exhausted { error, failed: failed + k + 1 }
            } else {
                retry_end((remaining - k - 1) as nat, failed + k + 1, outcomes.skip(k as int + 1))
            },
        },
    decreases k,
{
    if k == 0 {
        assert(outcomes.skip(1) =~= outcomes.drop_first());
    } else {
        assert(outcomes[0] is Err);
        let rest = outcomes.drop_first();
        assert forall|i: int| 0 <= i < k - 1 implies (#[trigger] rest[i]) is Err by {
            assert(rest[i] == outcomes[i + 1]);
        }
        lemma_retry_run((remaining - 1) as nat, failed + 1, rest, (k - 1) as nat);
        assert(rest.skip(k as int) =~= outcomes.skip(k as int + 1));
        assert(rest[k - 1] == outcomes[k as int]);
    }
}

} // verus!
