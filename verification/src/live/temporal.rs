//! Time budgets of synchronous operations, and ending them only after their cleanup.

use vstd::prelude::*;

verus! {

/// The most frames or instructions that one synchronous call advances. Longer travel is made of
/// several acknowledged calls, so that a dropped host cannot leave an unbounded operation behind.
pub const MAX_SYNC_ADVANCE_COUNT: u64 = 5_000;

/// The time that an adapter gives one synchronous operation, in milliseconds. It stays below the
/// deferred deadline of the outer link, so that cleanup and the final response still fit.
pub const MAX_SYNC_OPERATION_MS: u64 = 250_000;

/// The nanoseconds of one millisecond.
pub const NANOS_PER_MS: u64 = 1_000_000;

/// A point on a monotonic clock that counts nanoseconds.
#[derive(Clone, Copy, Debug, PartialEq, Eq, Structural)]
pub struct OperationDeadline {
    pub at: u64,
}

impl OperationDeadline {
    /// What is left of the budget at a moment: at least one millisecond while any is left,
    /// because a socket takes no timeout of zero.
    pub open spec fn left(self, now: u64) -> Option<u64> {
        if now >= self.at {
            None
        } else if self.at - now < NANOS_PER_MS {
            Some(NANOS_PER_MS)
        } else {
            Some((self.at - now) as u64)
        }
    }

    /// The deadline a budget after a moment.
    pub fn after(now: u64, budget: u64) -> (r: OperationDeadline)
        requires
            now + budget <= u64::MAX,
        ensures
            r.at == now + budget,
    {
        OperationDeadline { at: now + budget }
    }

    /// What is left of the budget, for the next blocking exchange.
    pub fn remaining_timeout(self, now: u64) -> (r: Option<u64>)
        ensures
            r == self.left(now),
            r matches Some(t) ==> t >= NANOS_PER_MS,
    {
        if now >= self.at {
            return None;
        }
        let remaining: u64 = self.at - now;
        if remaining < NANOS_PER_MS {
            Some(NANOS_PER_MS)
        } else {
            Some(remaining)
        }
    }

    /// Whether the budget is used up.
    pub fn expired(self, now: u64) -> (r: bool)
        ensures
            r == (now >= self.at),
            r == self.left(now) is None,
    {
        now >= self.at
    }
}

/// The timeout of one step of an operation: what is left, but no more than the step's own limit.
pub fn step_timeout(deadline: OperationDeadline, now: u64, limit: u64) -> (r: Option<u64>)
    ensures
        r == (match deadline.left(now) {
            None => None,
            Some(left) => Some(
                if left < limit {
                    left
                } else {
                    limit
                },
            ),
        }),
{
    match deadline.remaining_timeout(now) {
        None => None,
        Some(left) => if left < limit {
            Some(left)
        } else {
            Some(limit)
        },
    }
}

/// Ends an operation only after its cleanup. An effect whose cleanup failed is no success; where
/// both failed, `combine` keeps both causes.
pub fn finish_with_cleanup<T, E>(
    outcome: Result<T, E>,
    cleanup: Result<(), E>,
    combine: impl FnOnce(Option<E>, E) -> E,
) -> (r: Result<T, E>)
    requires
        cleanup matches Err(e) ==> call_requires(
            combine,
            (
                match outcome {
                    Ok(_) => None,
                    Err(primary) => Some(primary),
                },
                e,
            ),
        ),
    ensures
        match (outcome, cleanup) {
            (Ok(value), Ok(())) => r == Ok::<T, E>(value),
            (Err(primary), Ok(())) => r == Err::<T, E>(primary),
            (Ok(_), Err(e)) => r is Err && call_ensures(combine, (None, e), r->Err_0),
            (Err(primary), Err(e)) => r is Err && call_ensures(
                combine,
                (Some(primary), e),
                r->Err_0,
            ),
        },
        r is Ok <==> outcome is Ok && cleanup is Ok,
{
    match (outcome, cleanup) {
        (Ok(value), Ok(())) => Ok(value),
        (Ok(_), Err(cleanup_error)) => Err(combine(None, cleanup_error)),
        (Err(primary), Ok(())) => Err(primary),
        (Err(primary), Err(cleanup_error)) => Err(combine(Some(primary), cleanup_error)),
    }
}

} // verus!
