//! The capacity limiter: a counting permit pool that bounds the number of
//! concurrent in-flight calls of one execution unit.
//!
//! A unit configured with a limiter holds one permit for the whole lifetime
//! of each call, from submission until the caller is done with the response
//! (or has abandoned the call). Acquisition comes in two modes: the
//! non-blocking [`CapacityLimiter::try_acquire`] fails immediately with
//! [`Full`] when no permit is available, while a blocking caller keeps
//! polling [`CapacityLimiter::available_permits`] (suspending in between)
//! until a permit frees.

use vstd::prelude::*;

use crate::error::Full;

verus! {

/// A counting permit pool. The number of available permits is set at
/// construction; releases may push it above the initial count, matching the
/// behaviour of an asynchronous semaphore whose permits are added manually.
pub struct CapacityLimiter {
    available: usize,
}

impl CapacityLimiter {
    /// The number of permits currently available.
    pub closed spec fn permits(self) -> nat {
        self.available as nat
    }

    /// Creates a limiter with `permits` permits available.
    pub fn new(permits: usize) -> (l: Self)
        ensures
            l.permits() == permits,
    {
        CapacityLimiter { available: permits }
    }

    /// Non-blocking acquisition: takes one permit if one is available,
    /// and fails with `Full` (leaving the pool unchanged) otherwise.
    pub fn try_acquire(&mut self) -> (r: Result<(), Full>)
        ensures
            old(self).permits() == 0 ==> r is Err && *final(self) == *old(self),
            old(self).permits() > 0 ==> r is Ok && final(self).permits() == old(self).permits()
                - 1,
    {
        if self.available == 0 {
            Err(Full)
        } else {
            self.available = self.available - 1;
            Ok(())
        }
    }

    /// Returns one permit to the pool. Called when the call that held the
    /// permit completes, on the success and on the failure path alike.
    pub fn release(&mut self)
        requires
            old(self).permits() < usize::MAX,
        ensures
            final(self).permits() == old(self).permits() + 1,
    {
        self.available = self.available + 1;
    }

    /// The number of permits currently available.
    pub fn available_permits(&self) -> (n: usize)
        ensures
            n == self.permits(),
    {
        self.available
    }
}

} // verus!
