//! Accounting for the async client's bounded connection pool: which
//! connection slots are open and idle, which are borrowed, which are still
//! free, and when a caller must wait. The surrounding client keeps the
//! actual sockets in a list indexed by the slot ids this model hands out.

use vstd::prelude::*;

verus! {

/// The outcome of the zero-byte probe write that validates an idle
/// connection before reuse.
pub enum ProbeOutcome {
    /// The write succeeded (it wrote this many bytes).
    Wrote(usize),
    /// The socket was merely not ready: healthy.
    WouldBlock,
    /// Any other error: the connection is broken.
    Broken,
}

/// A connection passes validation exactly when its probe write succeeded or
/// merely would have blocked; any other error discards it.
pub fn probe_healthy(p: &ProbeOutcome) -> (r: bool)
    ensures
        r == !(p is Broken),
{
    match p {
        ProbeOutcome::Wrote(_) => true,
        ProbeOutcome::WouldBlock => true,
        ProbeOutcome::Broken => false,
    }
}

/// What a borrower is told to do.
pub enum Acquire {
    /// Reuse the idle connection in this slot (after validating it).
    Reuse(usize),
    /// Open a brand-new connection in this slot.
    Create(usize),
    /// The pool is at capacity with every connection borrowed: wait until
    /// one is returned.
    Wait,
}

/// The index of `id` in a vector known to hold it.
fn find_slot(v: &Vec<usize>, id: usize) -> (k: usize)
    requires
        v@.contains(id),
    ensures
        k < v@.len(),
        v@[k as int] == id,
{
    let n = v.len();
    let mut k: usize = 0;
    while k < n
        invariant
            n == v@.len(),
            k <= n,
            v@.contains(id),
            forall|j: int| 0 <= j < k ==> v@[j] != id,
        decreases n - k,
    {
        if v[k] == id {
            return k;
        }
        k = k + 1;
    }
    proof {
        let w = choose|w: int| 0 <= w < v@.len() && v@[w] == id;
        assert(v@[w] != id);
    }
    0
}

/// The pool's bookkeeping. Every connection slot id lies below `capacity`
/// and is in exactly one of the three lists: `idle` (open, ready for
/// reuse), `in_use` (borrowed by one caller), or `free` (no connection
/// open in it).
pub struct Pool {
    pub capacity: usize,
    pub idle: Vec<usize>,
    pub in_use: Vec<usize>,
    pub free: Vec<usize>,
}

impl Pool {
    /// Slot ids are unique within and across the three lists, every id is
    /// below `capacity`, and the lists together hold exactly `capacity`
    /// slots — so open connections (idle and borrowed together) never
    /// exceed the capacity.
    pub open spec fn wf(self) -> bool {
        &&& forall|i: int, j: int|
            0 <= i < j < self.idle@.len() ==> self.idle@[i] != self.idle@[j]
        &&& forall|i: int, j: int|
            0 <= i < j < self.in_use@.len() ==> self.in_use@[i] != self.in_use@[j]
        &&& forall|i: int, j: int|
            0 <= i < j < self.free@.len() ==> self.free@[i] != self.free@[j]
        &&& forall|i: int, j: int|
            0 <= i < self.idle@.len() && 0 <= j < self.in_use@.len() ==> self.idle@[i]
                != self.in_use@[j]
        &&& forall|i: int, j: int|
            0 <= i < self.idle@.len() && 0 <= j < self.free@.len() ==> self.idle@[i]
                != self.free@[j]
        &&& forall|i: int, j: int|
            0 <= i < self.in_use@.len() && 0 <= j < self.free@.len() ==> self.in_use@[i]
                != self.free@[j]
        &&& forall|i: int| 0 <= i < self.idle@.len() ==> self.idle@[i] < self.capacity
        &&& forall|i: int| 0 <= i < self.in_use@.len() ==> self.in_use@[i] < self.capacity
        &&& forall|i: int| 0 <= i < self.free@.len() ==> self.free@[i] < self.capacity
        &&& self.idle@.len() + self.in_use@.len() + self.free@.len() == self.capacity
    }

    /// An empty pool bounded by `capacity` connections: every slot free.
    pub fn new(capacity: usize) -> (r: Pool)
        ensures
            r.wf(),
            r.capacity == capacity,
            r.idle@.len() == 0,
            r.in_use@.len() == 0,
    {
        let mut free: Vec<usize> = Vec::new();
        let mut s: usize = 0;
        while s < capacity
            invariant
                s <= capacity,
                free@.len() == s,
                forall|i: int| 0 <= i < s ==> free@[i] == i,
            decreases capacity - s,
        {
            free.push(s);
            s = s + 1;
        }
        Pool { capacity, idle: Vec::new(), in_use: Vec::new(), free }
    }

    /// Borrows a connection: the most recently returned idle one when there
    /// is one, a brand-new one while the pool is under capacity, and
    /// otherwise nothing — the caller waits, and a connection beyond the
    /// capacity never comes to exist.
    pub fn try_acquire(&mut self) -> (r: Acquire)
        requires
            old(self).wf(),
        ensures
            final(self).wf(),
            final(self).capacity == old(self).capacity,
            r matches Acquire::Reuse(id) ==> {
                &&& old(self).idle@.len() > 0
                &&& id == old(self).idle@.last()
                &&& final(self).idle@ == old(self).idle@.drop_last()
                &&& final(self).in_use@ == old(self).in_use@.push(id)
                &&& final(self).free@ == old(self).free@
                &&& !old(self).in_use@.contains(id)
            },
            r matches Acquire::Create(id) ==> {
                &&& old(self).idle@.len() == 0
                &&& old(self).in_use@.len() < old(self).capacity
                &&& id == old(self).free@.last()
                &&& final(self).free@ == old(self).free@.drop_last()
                &&& final(self).in_use@ == old(self).in_use@.push(id)
                &&& final(self).idle@ == old(self).idle@
                &&& !old(self).in_use@.contains(id)
            },
            r is Wait <==> (old(self).idle@.len() == 0 && old(self).in_use@.len() == old(
                self,
            ).capacity),
            r is Wait ==> final(self).idle@ == old(self).idle@ && final(self).in_use@ == old(
                self,
            ).in_use@ && final(self).free@ == old(self).free@,
    {
        proof {
            if old(self).idle@.len() > 0 {
                let id = old(self).idle@.last();
                if old(self).in_use@.contains(id) {
                    let w = choose|w: int|
                        0 <= w < old(self).in_use@.len() && old(self).in_use@[w] == id;
                    assert(old(self).idle@[old(self).idle@.len() - 1] == old(self).in_use@[w]);
                }
            }
        }
        let popped = self.idle.pop();
        match popped {
            Some(id) => {
                self.in_use.push(id);
                Acquire::Reuse(id)
            },
            None => {
                if self.in_use.len() < self.capacity {
                    proof {
                        assert(old(self).free@.len() > 0);
                        let id = old(self).free@.last();
                        if old(self).in_use@.contains(id) {
                            let w = choose|w: int|
                                0 <= w < old(self).in_use@.len() && old(self).in_use@[w] == id;
                            assert(old(self).free@[old(self).free@.len() - 1]
                                == old(self).in_use@[w]);
                        }
                    }
                    let taken = self.free.pop();
                    match taken {
                        Some(id) => {
                            self.in_use.push(id);
                            Acquire::Create(id)
                        },
                        None => {
                            proof {
                                assert(false);
                            }
                            Acquire::Wait
                        },
                    }
                } else {
                    Acquire::Wait
                }
            },
        }
    }

    /// Returns the borrowed connection `id`: back to the idle list when it
    /// passed validation, back to the free slots (its connection dropped)
    /// otherwise.
    pub fn release(&mut self, id: usize, healthy: bool)
        requires
            old(self).wf(),
            old(self).in_use@.contains(id),
        ensures
            final(self).wf(),
            final(self).capacity == old(self).capacity,
            final(self).in_use@.len() == old(self).in_use@.len() - 1,
            !final(self).in_use@.contains(id),
            forall|c: usize| #[trigger]
                final(self).in_use@.contains(c) <==> (old(self).in_use@.contains(c) && c != id),
            healthy ==> final(self).idle@ == old(self).idle@.push(id) && final(self).free@ == old(
                self,
            ).free@,
            !healthy ==> final(self).idle@ == old(self).idle@ && final(self).free@ == old(
                self,
            ).free@.push(id),
    {
        let k = find_slot(&self.in_use, id);
        self.in_use.remove(k);
        proof {
            assert forall|c: usize| #[trigger]
                self.in_use@.contains(c) implies (old(self).in_use@.contains(c) && c != id) by {
                let w = choose|w: int| 0 <= w < self.in_use@.len() && self.in_use@[w] == c;
                if w < k {
                    assert(old(self).in_use@[w] == c);
                } else {
                    assert(old(self).in_use@[w + 1] == c);
                }
            }
            assert forall|c: usize|
                old(self).in_use@.contains(c) && c != id implies #[trigger] self.in_use@.contains(
                c,
            ) by {
                let w = choose|w: int|
                    0 <= w < old(self).in_use@.len() && old(self).in_use@[w] == c;
                if w < k {
                    assert(self.in_use@[w] == c);
                } else {
                    assert(w != k);
                    assert(self.in_use@[w - 1] == c);
                }
            }
        }
        if healthy {
            proof {
                assert forall|j: int|
                    0 <= j < self.in_use@.len() implies self.in_use@[j] != id by {
                    assert(self.in_use@.contains(self.in_use@[j]));
                }
            }
            self.idle.push(id);
        } else {
            proof {
                assert forall|j: int|
                    0 <= j < self.in_use@.len() implies self.in_use@[j] != id by {
                    assert(self.in_use@.contains(self.in_use@[j]));
                }
            }
            self.free.push(id);
        }
    }
}

/// Pool capacity law: a well-formed pool never holds more open connections
/// — idle and borrowed together — than its capacity, and once all of its
/// `capacity` connections are borrowed none is idle, so a further borrower
/// can only wait.
pub proof fn lemma_pool_capacity(p: Pool)
    requires
        p.wf(),
    ensures
        p.idle@.len() + p.in_use@.len() <= p.capacity,
        p.in_use@.len() == p.capacity ==> p.idle@.len() == 0,
{
}

/// Concurrent isolation: two simultaneously borrowed connections of a
/// well-formed pool are always distinct, so no two callers ever exchange
/// bytes over the same connection at once.
pub proof fn lemma_borrowed_distinct(p: Pool, i: int, j: int)
    requires
        p.wf(),
        0 <= i < j < p.in_use@.len(),
    ensures
        p.in_use@[i] != p.in_use@[j],
{
}

} // verus!
