//! The keep-alive deadline of a connection.

use vstd::prelude::*;

verus! {

/// One deadline, which may be moved. Instants are counted in milliseconds
/// from an origin that the caller chooses.
#[derive(Clone, Copy, Debug, PartialEq, Eq, Structural)]
pub struct KeepAlive {
    /// The instant from which on the timer has expired.
    pub deadline: u64,
}

/// The instant `dur` after `now`, or the last instant there is.
pub open spec fn instant_after(now: u64, dur: u64) -> u64 {
    if now + dur > u64::MAX {
        u64::MAX
    } else {
        (now + dur) as u64
    }
}

impl KeepAlive {
    /// A timer that expires at `deadline`.
    pub fn new(deadline: u64) -> (r: Self)
        ensures
            r.deadline == deadline,
    {
        KeepAlive { deadline }
    }

    /// Moves the deadline. There is one deadline at a time: the earlier one
    /// is forgotten.
    pub fn update(&mut self, deadline: u64)
        ensures
            final(self).deadline == deadline,
    {
        self.deadline = deadline;
    }

    /// Whether the deadline has passed at `now`.
    pub fn is_expired(&self, now: u64) -> (r: bool)
        ensures
            r == (now >= self.deadline),
    {
        now >= self.deadline
    }

    /// Computes `instant_after`.
    pub fn after(now: u64, dur: u64) -> (r: u64)
        ensures
            r == instant_after(now, dur),
    {
        if now > u64::MAX - dur {
            u64::MAX
        } else {
            now + dur
        }
    }
}

} // verus!
