//! Exclusive port leasing from a fixed ephemeral range. A port is leased for
//! the lifetime of a container and released only on delete or on creation
//! rollback; at most one active lease per port exists at any time.

use vstd::prelude::*;

verus! {

/// First port of the leasable range.
pub const PORT_RANGE_START: u16 = 59001;

/// First port above the leasable range.
pub const PORT_RANGE_END: u16 = 60000;

/// Owns the set of leased ports. The in-process lease table is what makes two
/// concurrent leases of the same port impossible; an availability probe on
/// the host alone could not, so callers probe only ports this allocator has
/// already reserved for them.
pub struct PortAllocator {
    leased: Vec<u16>,
}

/// A port of the leasable range.
pub open spec fn spec_port_in_range(p: u16) -> bool {
    PORT_RANGE_START <= p < PORT_RANGE_END
}

impl PortAllocator {
    pub closed spec fn leased_seq(self) -> Seq<u16> {
        self.leased@
    }

    pub open spec fn is_leased(self, p: u16) -> bool {
        self.leased_seq().contains(p)
    }

    /// The lease table holds each port at most once, and only range ports.
    pub open spec fn wf(self) -> bool {
        &&& forall|j: int, k: int|
            0 <= j < k < self.leased_seq().len() ==> self.leased_seq()[j]
                != self.leased_seq()[k]
        &&& forall|j: int|
            0 <= j < self.leased_seq().len() ==> spec_port_in_range(
                #[trigger] self.leased_seq()[j],
            )
    }

    /// Number of active leases.
    pub open spec fn leased_count(self) -> int {
        self.leased_seq().len() as int
    }

    pub fn new() -> (a: Self)
        ensures
            a.wf(),
            forall|p: u16| !a.is_leased(p),
            a.leased_count() == 0,
    {
        PortAllocator { leased: Vec::new() }
    }

    /// Whether the port is currently leased.
    pub fn holds_lease(&self, p: u16) -> (r: bool)
        ensures
            r == self.is_leased(p),
    {
        let n = self.leased.len();
        let mut i: usize = 0;
        while i < n
            invariant
                n == self.leased_seq().len(),
                i <= n,
                forall|j: int| 0 <= j < i ==> self.leased_seq()[j] != p,
            decreases n - i,
        {
            if self.leased[i] == p {
                return true;
            }
            i = i + 1;
        }
        false
    }

    /// Leases the lowest free port of the range and marks it leased in the
    /// same step, or reports exhaustion. A returned port was free, is in
    /// range, and its lease is the only change to the table.
    #[verifier::loop_isolation(false)]
    pub fn lease(&mut self) -> (r: Option<u16>)
        requires
            old(self).wf(),
        ensures
            final(self).wf(),
            match r {
                Some(p) => {
                    &&& spec_port_in_range(p)
                    &&& !old(self).is_leased(p)
                    &&& forall|q: u16| PORT_RANGE_START <= q < p ==> old(self).is_leased(q)
                    &&& final(self).is_leased(p)
                    &&& forall|q: u16| q != p ==> final(self).is_leased(q) == old(self).is_leased(q)
                    &&& final(self).leased_count() == old(self).leased_count() + 1
                },
                None => {
                    &&& *final(self) == *old(self)
                    &&& forall|p: u16| spec_port_in_range(p) ==> old(self).is_leased(p)
                },
            },
    {
        let mut p: u16 = PORT_RANGE_START;
        while p < PORT_RANGE_END
            invariant
                *self == *old(self),
                PORT_RANGE_START <= p <= PORT_RANGE_END,
                forall|q: u16| PORT_RANGE_START <= q < p ==> self.is_leased(q),
            decreases PORT_RANGE_END - p,
        {
            if !self.holds_lease(p) {
                let ghost pre = *self;
                self.leased.push(p);
                proof {
                    assert forall|q: u16| q != p implies self.is_leased(q) == pre.is_leased(
                        q,
                    ) by {
                        if pre.is_leased(q) {
                            let j = choose|j: int|
                                0 <= j < pre.leased_seq().len() && pre.leased_seq()[j] == q;
                            assert(self.leased_seq()[j] == q);
                        } else if self.is_leased(q) {
                            let j = choose|j: int|
                                0 <= j < self.leased_seq().len() && self.leased_seq()[j] == q;
                            assert(j < pre.leased_seq().len());
                        }
                    }
                    assert(self.leased_seq()[pre.leased_seq().len() as int] == p);
                }
                return Some(p);
            }
            p = p + 1;
        }
        None
    }

    /// Releases a lease, making the port eligible for reuse. Releasing a port
    /// that is not leased is a no-op, not an error.
    #[verifier::loop_isolation(false)]
    pub fn release(&mut self, p: u16)
        requires
            old(self).wf(),
        ensures
            final(self).wf(),
            !final(self).is_leased(p),
            forall|q: u16| q != p ==> final(self).is_leased(q) == old(self).is_leased(q),
            old(self).is_leased(p) ==> final(self).leased_count() == old(self).leased_count() - 1,
            !old(self).is_leased(p) ==> *final(self) == *old(self),
    {
        let n = self.leased.len();
        let mut i: usize = 0;
        while i < n
            invariant
                *self == *old(self),
                i <= n,
                forall|j: int| 0 <= j < i ==> self.leased_seq()[j] != p,
            decreases n - i,
        {
            if self.leased[i] == p {
                let ghost pre = *self;
                self.leased.remove(i);
                proof {
                    assert(!self.is_leased(p)) by {
                        if self.is_leased(p) {
                            let j = choose|j: int|
                                0 <= j < self.leased_seq().len() && self.leased_seq()[j] == p;
                            if j < i {
                                assert(pre.leased_seq()[j] == p);
                            } else {
                                assert(pre.leased_seq()[j + 1] == p);
                            }
                        }
                    }
                    assert forall|q: u16| q != p implies self.is_leased(q) == pre.is_leased(
                        q,
                    ) by {
                        if pre.is_leased(q) {
                            let j = choose|j: int|
                                0 <= j < pre.leased_seq().len() && pre.leased_seq()[j] == q;
                            if j < i {
                                assert(self.leased_seq()[j] == q);
                            } else {
                                assert(j != i);
                                assert(self.leased_seq()[j - 1] == q);
                            }
                        } else if self.is_leased(q) {
                            let j = choose|j: int|
                                0 <= j < self.leased_seq().len() && self.leased_seq()[j] == q;
                            if j < i {
                                assert(pre.leased_seq()[j] == q);
                            } else {
                                assert(pre.leased_seq()[j + 1] == q);
                            }
                        }
                    }
                }
                return ;
            }
            i = i + 1;
        }
        proof {
            assert(!self.is_leased(p));
        }
    }
}

} // verus!
