use vstd::prelude::*;
use crate::types::Error;

verus! {

pub const NANOS_PER_SECOND: i64 = 1_000_000_000;

/// Admits at most `orders_per_second` order operations in any one second.
/// It keeps the timestamps of the most recent admitted operations, oldest first.
#[derive(Debug, Clone)]
pub struct OrderRateLimiter {
    orders_per_second: u16,
    timestamps: Vec<i64>,
}

impl OrderRateLimiter {
    pub closed spec fn budget(self) -> nat {
        self.orders_per_second as nat
    }

    /// The timestamps of the recent admitted operations, oldest first.
    pub closed spec fn recent(self) -> Seq<i64> {
        self.timestamps@
    }

    pub closed spec fn wf(self) -> bool {
        &&& 1 <= self.orders_per_second
        &&& self.timestamps@.len() <= self.orders_per_second
    }

    /// Whether an operation at `now` is admitted.
    pub open spec fn admits(self, now: i64) -> bool {
        self.recent().len() < self.budget() || now - self.recent()[0] >= NANOS_PER_SECOND
    }

    /// The recent timestamps after an operation at `now` was admitted.
    pub open spec fn recent_after(self, now: i64) -> Seq<i64> {
        if self.recent().len() < self.budget() {
            self.recent().push(now)
        } else {
            self.recent().drop_first().push(now)
        }
    }

    /// A limiter that has admitted nothing yet.
    pub fn new(orders_per_second: u16) -> (r: OrderRateLimiter)
        requires
            1 <= orders_per_second,
        ensures
            r.wf(),
            r.budget() == orders_per_second,
            r.recent() == Seq::<i64>::empty(),
    {
        OrderRateLimiter { orders_per_second, timestamps: Vec::new() }
    }

    /// Admit an operation at `now`, or refuse it when the budget of the last second is spent.
    pub fn aquire(&mut self, now: i64) -> (r: Result<(), Error>)
        requires
            old(self).wf(),
        ensures
            final(self).wf(),
            final(self).budget() == old(self).budget(),
            r is Ok <==> old(self).admits(now),
            r is Ok ==> final(self).recent() == old(self).recent_after(now),
            r is Err ==> r == Err::<(), Error>(Error::RateLimitExceeded) && *final(self) == *old(self),
    {
        if self.timestamps.len() < self.orders_per_second as usize {
            self.timestamps.push(now);
            return Ok(());
        }
        let oldest = self.timestamps[0];
        if (now as i128) - (oldest as i128) >= NANOS_PER_SECOND as i128 {
            self.timestamps.remove(0);
            self.timestamps.push(now);
            proof {
                assert(self.timestamps@ =~= old(self).timestamps@.drop_first().push(now));
            }
            Ok(())
        } else {
            Err(Error::RateLimitExceeded)
        }
    }
}

} // verus!
