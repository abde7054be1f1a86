//! The bump strategy: a single monotone cursor, whole-heap reclamation.

use vstd::prelude::*;

verus! {

use crate::allocators::{
    Region, region_end, regions_disjoint, pairwise_disjoint, spec_align_up,
};

/// Allocates by advancing a cursor through `[heap_start, heap_end)`; frees
/// only count down, and the cursor rewinds to `heap_start` when the last
/// outstanding allocation is returned.
pub struct BumpAllocator {
    pub heap_start: usize,
    pub heap_end: usize,
    /// The next free address.
    pub next: usize,
    /// How many allocations are outstanding.
    pub allocations: usize,
    /// Every region handed out since the last whole-heap reclamation.
    pub issued: Ghost<Seq<Region>>,
}

impl BumpAllocator {
    pub open spec fn wf(&self) -> bool {
        &&& self.heap_start <= self.next <= self.heap_end
        &&& self.allocations <= self.next - self.heap_start
        &&& (self.allocations == 0 ==> self.next == self.heap_start)
        &&& (self.allocations == 0 ==> self.issued@.len() == 0)
        &&& (forall|i: int|
            0 <= i < self.issued@.len() ==> self.heap_start <= #[trigger] self.issued@[i].base
                && region_end(self.issued@[i]) <= self.next)
        &&& pairwise_disjoint(self.issued@)
    }

    /// An allocator that owns no heap yet.
    pub fn new() -> (r: Self)
        ensures
            r.wf(),
            r.heap_start == 0 && r.heap_end == 0 && r.next == 0,
            r.allocations == 0,
            r.issued@.len() == 0,
    {
        BumpAllocator {
            heap_start: 0,
            heap_end: 0,
            next: 0,
            allocations: 0,
            issued: Ghost(Seq::empty()),
        }
    }

    /// Hands the allocator its heap region, once, before any allocation.
    pub fn init(&mut self, heap_start: usize, heap_size: usize)
        requires
            old(self).heap_start == 0 && old(self).heap_end == 0 && old(self).next == 0,
            old(self).allocations == 0,
            old(self).issued@.len() == 0,
            heap_start + heap_size <= usize::MAX,
        ensures
            final(self).inited(heap_start, heap_size),
    {
        self.heap_start = heap_start;
        self.heap_end = heap_start + heap_size;
        self.next = heap_start;
    }

    /// The state `init` establishes: the whole region free, nothing out.
    pub open spec fn inited(&self, heap_start: usize, heap_size: usize) -> bool {
        &&& self.wf()
        &&& self.heap_start == heap_start
        &&& self.heap_end == heap_start + heap_size
        &&& self.next == heap_start
        &&& self.allocations == 0
        &&& self.issued@.len() == 0
    }

    /// Rounds the cursor up to `align` and advances it past `size` bytes.
    ///
    /// Returns `None` exactly when the aligned request does not fit in the
    /// remaining heap; the cursor then stays where it was.
    pub fn allocate(&mut self, size: usize, align: usize) -> (r: Option<usize>)
        requires
            old(self).wf(),
            align >= 1,
            size >= 1,
        ensures
            final(self).wf(),
            final(self).heap_start == old(self).heap_start,
            final(self).heap_end == old(self).heap_end,
            r is None <==> spec_align_up(old(self).next as int, align as int) + size > old(
                self,
            ).heap_end,
            match r {
                Some(a) => {
                    &&& a == spec_align_up(old(self).next as int, align as int)
                    &&& a % align == 0
                    &&& old(self).next <= a && a + size <= old(self).heap_end
                    &&& final(self).next == a + size
                    &&& final(self).allocations == old(self).allocations + 1
                    &&& final(self).issued@ == old(self).issued@.push(Region { base: a, size })
                    &&& forall|i: int|
                        0 <= i < old(self).issued@.len() ==> regions_disjoint(
                            Region { base: a, size },
                            #[trigger] old(self).issued@[i],
                        )
                },
                None => *final(self) == *old(self),
            },
    {
        let start: usize = match crate::allocators::try_align_up(self.next, align) {
            Some(v) => v,
            None => {
                return None;
            },
        };
        if start > self.heap_end {
            return None;
        }
        if size > self.heap_end - start {
            return None;
        }
        let ghost fresh = Region { base: start, size };
        self.next = start + size;
        self.allocations = self.allocations + 1;
        proof {
            assert forall|i: int| 0 <= i < old(self).issued@.len() implies regions_disjoint(
                fresh,
                #[trigger] old(self).issued@[i],
            ) by {
                assert(region_end(old(self).issued@[i]) <= old(self).next);
            }
        }
        self.issued = Ghost(self.issued@.push(fresh));
        Some(start)
    }

    /// Forgets one outstanding allocation; the address and size play no
    /// part.  When the count returns to zero the whole heap is reclaimed in
    /// one step: the cursor rewinds to `heap_start`.
    pub fn deallocate(&mut self, _addr: usize, _size: usize)
        requires
            old(self).wf(),
            old(self).allocations >= 1,
        ensures
            final(self).wf(),
            final(self).heap_start == old(self).heap_start,
            final(self).heap_end == old(self).heap_end,
            final(self).allocations == old(self).allocations - 1,
            old(self).allocations == 1 ==> final(self).next == final(self).heap_start
                && final(self).issued@.len() == 0,
            old(self).allocations > 1 ==> final(self).next == old(self).next
                && final(self).issued@ == old(self).issued@,
    {
        self.allocations = self.allocations - 1;
        if self.allocations == 0 {
            self.next = self.heap_start;
            self.issued = Ghost(Seq::empty());
        }
    }
}

/// The bump allocator never hands out overlapping memory: all regions issued
/// since the last whole-heap reclamation lie inside the heap and are pairwise
/// disjoint.
pub proof fn lemma_bump_issued_disjoint(a: BumpAllocator)
    requires
        a.wf(),
    ensures
        pairwise_disjoint(a.issued@),
        forall|i: int|
            0 <= i < a.issued@.len() ==> a.heap_start <= #[trigger] a.issued@[i].base
                && region_end(a.issued@[i]) <= a.heap_end,
{
}

} // verus!
