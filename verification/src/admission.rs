//! The admission controller: a counting gate that bounds how many client
//! sessions run at once.
//!
//! Its capacity is fixed, chosen at startup. A session acquires a
//! slot before any of its work begins and releases it only when the whole
//! handler has finished, on every exit path. No order among waiters is
//! promised — only that the number of outstanding slots never exceeds the
//! capacity. The driver supplies the waiting: when `try_acquire` refuses,
//! the session is parked until some other session releases.

use vstd::prelude::*;

verus! {

/// A counting gate with fixed capacity.
pub struct AdmissionGate {
    capacity: usize,
    active: usize,
}

impl AdmissionGate {
    /// The fixed number of sessions admitted at once.
    pub closed spec fn spec_capacity(&self) -> nat {
        self.capacity as nat
    }

    /// How many admitted sessions have not released their slot yet.
    pub closed spec fn spec_active(&self) -> nat {
        self.active as nat
    }

    /// Invariant: outstanding slots never exceed the capacity.
    pub open spec fn wf(&self) -> bool {
        self.spec_active() <= self.spec_capacity()
    }

    /// Builds a gate of the given capacity with no slot taken.
    pub fn new(capacity: usize) -> (r: AdmissionGate)
        ensures
            r.wf(),
            r.spec_capacity() == capacity,
            r.spec_active() == 0,
    {
        AdmissionGate { capacity, active: 0 }
    }

    /// The fixed capacity.
    pub fn capacity(&self) -> (r: usize)
        ensures
            r == self.spec_capacity(),
    {
        self.capacity
    }

    /// The number of outstanding slots.
    pub fn active(&self) -> (r: usize)
        ensures
            r == self.spec_active(),
    {
        self.active
    }

    /// Claims a slot if one is free. A slot is granted exactly when fewer
    /// than `capacity` sessions hold one; a refused caller changes nothing
    /// and may try again after some release.
    pub fn try_acquire(&mut self) -> (granted: bool)
        requires
            old(self).wf(),
        ensures
            final(self).wf(),
            final(self).spec_capacity() == old(self).spec_capacity(),
            granted == (old(self).spec_active() < old(self).spec_capacity()),
            granted ==> final(self).spec_active() == old(self).spec_active() + 1,
            !granted ==> final(self).spec_active() == old(self).spec_active(),
    {
        if self.active < self.capacity {
            self.active = self.active + 1;
            true
        } else {
            false
        }
    }

    /// Returns a slot when its session has fully finished. Callers hand
    /// back only slots they hold, so at least one must be outstanding.
    pub fn release(&mut self)
        requires
            old(self).wf(),
            old(self).spec_active() > 0,
        ensures
            final(self).wf(),
            final(self).spec_capacity() == old(self).spec_capacity(),
            final(self).spec_active() == old(self).spec_active() - 1,
    {
        self.active = self.active - 1;
    }
}

/// One request a counting gate serves over its lifetime.
pub enum GateOp {
    /// A session asked for a slot (granted only below capacity).
    Acquire,
    /// A session that held a slot gave it back (without one, nothing
    /// changes).
    Release,
}

/// The number of outstanding slots after a gate of capacity `cap` has
/// served the given requests in order, starting empty: an acquire below
/// capacity admits, an acquire at capacity is refused, and a release by a
/// holder frees one slot.
pub open spec fn gate_run(cap: nat, ops: Seq<GateOp>) -> nat
    decreases ops.len(),
{
    if ops.len() == 0 {
        0
    } else {
        let prev = gate_run(cap, ops.drop_last());
        match ops.last() {
            GateOp::Acquire => if prev < cap {
                prev + 1
            } else {
                prev
            },
            GateOp::Release => if prev > 0 {
                (prev - 1) as nat
            } else {
                prev
            },
        }
    }
}

/// Law: however acquisitions and releases interleave — in particular when
/// one more session than the capacity arrives at once — the number of
/// outstanding slots never exceeds the capacity, and a refused session can
/// only be admitted after some holder releases.
pub proof fn lemma_admission_bounded(cap: nat, ops: Seq<GateOp>)
    ensures
        gate_run(cap, ops) <= cap,
    decreases ops.len(),
{
    if ops.len() > 0 {
        lemma_admission_bounded(cap, ops.drop_last());
    }
}

} // verus!
