//! Admission control for proving workers.
//!
//! A counting gate with capacity `max(1, max_concurrent_proofs)` bounds how
//! many proofs run at once. A permit is taken after program resolution and
//! before the proving worker starts, and is returned on every exit path.

use vstd::prelude::*;

verus! {

/// The admission gate: how many workers may prove at once, and how many are
/// proving now.
pub struct AdmissionGate {
    capacity: usize,
    in_flight: usize,
}

impl AdmissionGate {
    /// The number of permits.
    pub closed spec fn capacity(&self) -> int {
        self.capacity as int
    }

    /// The number of workers holding a permit.
    pub closed spec fn in_flight(&self) -> int {
        self.in_flight as int
    }

    /// A sound gate never lends more permits than it has, and has at least
    /// one.
    pub open spec fn wf(&self) -> bool {
        0 <= self.in_flight() <= self.capacity() && self.capacity() >= 1
    }

    /// A gate sized to the configured cap, floored at one worker.
    pub fn new(max_concurrent_proofs: usize) -> (r: AdmissionGate)
        ensures
            r.wf(),
            r.capacity() == if max_concurrent_proofs == 0 { 1int } else {
                max_concurrent_proofs as int
            },
            r.in_flight() == 0,
    {
        AdmissionGate {
            capacity: if max_concurrent_proofs == 0 { 1 } else { max_concurrent_proofs },
            in_flight: 0,
        }
    }

    /// Takes a permit when one is free. Succeeds exactly when a permit is
    /// free.
    pub fn try_acquire(&mut self) -> (r: bool)
        requires
            old(self).wf(),
        ensures
            final(self).wf(),
            final(self).capacity() == old(self).capacity(),
            r == (old(self).in_flight() < old(self).capacity()),
            r ==> final(self).in_flight() == old(self).in_flight() + 1,
            !r ==> final(self).in_flight() == old(self).in_flight(),
    {
        if self.in_flight < self.capacity {
            self.in_flight = self.in_flight + 1;
            true
        } else {
            false
        }
    }

    /// Returns a permit. Every exit path of a prove — success, failure, or
    /// a worker panic — must come back through here.
    pub fn release(&mut self)
        requires
            old(self).wf(),
            old(self).in_flight() >= 1,
        ensures
            final(self).wf(),
            final(self).capacity() == old(self).capacity(),
            final(self).in_flight() == old(self).in_flight() - 1,
    {
        self.in_flight = self.in_flight - 1;
    }

    /// How many workers hold a permit right now.
    pub fn current_in_flight(&self) -> (r: usize)
        ensures
            r as int == self.in_flight(),
    {
        self.in_flight
    }

    /// The total number of permits.
    pub fn total_capacity(&self) -> (r: usize)
        ensures
            r as int == self.capacity(),
    {
        self.capacity
    }

    /// A sound gate never has more permits out than its capacity allows.
    pub proof fn lemma_permits_within_capacity(&self)
        requires
            self.wf(),
        ensures
            self.in_flight() <= self.capacity(),
    {
    }
}

} // verus!
