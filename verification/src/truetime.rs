//! Spanner's TrueTime: a clock with bounded uncertainty.

use vstd::prelude::*;
use crate::net::Time;

verus! {

/// A clock reading with uncertainty `epsilon` around `now`.
#[derive(Clone, Copy, Debug)]
pub struct TrueTime {
    /// Centre of the uncertainty interval.
    pub now: Time,
    /// Half-width of the uncertainty interval.
    pub epsilon: Time,
}

/// The earliest time the true time can be: `now - epsilon`, or 0.
pub open spec fn earliest(tt: TrueTime) -> int {
    if tt.now >= tt.epsilon {
        tt.now - tt.epsilon
    } else {
        0
    }
}

impl TrueTime {
    /// Build a `TrueTime` reading.
    pub fn new(now: Time, epsilon: Time) -> (tt: Self)
        ensures
            tt.now == now,
            tt.epsilon == epsilon,
    {
        TrueTime { now, epsilon }
    }

    /// The current uncertainty interval `[earliest, latest]`.
    pub fn interval(&self) -> (r: (Time, Time))
        requires
            self.now + self.epsilon <= Time::MAX,
        ensures
            r.0 == earliest(*self),
            r.1 == self.now + self.epsilon,
    {
        (self.now.saturating_sub(self.epsilon), self.now + self.epsilon)
    }

    /// `t` has definitely passed: `t < earliest`.
    pub fn after(&self, t: Time) -> (r: bool)
        requires
            self.now + self.epsilon <= Time::MAX,
        ensures
            r == (t < earliest(*self)),
    {
        let (earliest, _) = self.interval();
        t < earliest
    }

    /// `t` has definitely not arrived: `t > latest`.
    pub fn before(&self, t: Time) -> (r: bool)
        requires
            self.now + self.epsilon <= Time::MAX,
        ensures
            r == (t > self.now + self.epsilon),
    {
        let (_, latest) = self.interval();
        t > latest
    }
}

/// Commit wait gives external consistency: if the second reading is
/// taken once the first commit timestamp (`latest + 1` of the first
/// reading) has definitely passed, the second commit timestamp is larger.
pub proof fn lemma_commit_wait(first: TrueTime, second: TrueTime)
    requires
        first.now + first.epsilon + 1 < earliest(second),
    ensures
        first.now + first.epsilon + 1 < second.now + second.epsilon + 1,
{
}

} // verus!
