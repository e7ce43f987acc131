//! Sequence numbers of live application events: published events are numbered
//! from one, in publication order, without gaps.
use vstd::prelude::*;

verus! {

/// Default capacity of the live event channel.
pub const DEFAULT_EVENT_CAPACITY: usize = 256;

/// Hands out event sequence numbers.
pub struct EventSequencer {
    next: u64,
}

impl EventSequencer {
    /// The number the next published event gets.
    pub closed spec fn upcoming(&self) -> u64 {
        self.next
    }

    #[verifier::type_invariant]
    closed spec fn inv(self) -> bool {
        self.next >= 1
    }

    /// A sequencer whose first event gets number one.
    pub fn new() -> (s: Self)
        ensures
            s.upcoming() == 1,
    {
        EventSequencer { next: 1 }
    }

    /// The number of the event being published; the next one gets the number after it.
    pub fn next_sequence(&mut self) -> (sequence: u64)
        requires
            old(self).upcoming() < u64::MAX,
        ensures
            sequence == old(self).upcoming(),
            sequence >= 1,
            final(self).upcoming() == sequence + 1,
    {
        proof {
            use_type_invariant(&*self);
        }
        let sequence = self.next;
        self.next = sequence + 1;
        sequence
    }
}

} // verus!
