//! The free-list strategy: an explicit list of free regions, first-fit
//! search in most-recently-freed order, and region splitting.
//!
//! A running kernel stores each list node inside the free memory itself; the
//! node here is the same header — a start address and a size — held as a
//! plain descriptor, so that every placement decision can be checked.  Freed
//! neighbouring regions are deliberately not coalesced; the list keeps them
//! as separate entries.

use vstd::prelude::*;

verus! {

use crate::allocators::{
    Region, region_end, regions_disjoint, pairwise_disjoint, spec_align_up, is_pow2,
    try_align_up, align_up, lemma_pow2_divides, lemma_mod_chain, lemma_mod_sum,
    lemma_pos_multiple_ge, lemma_spec_align_up,
};

/// Bytes a free region must be able to spare for its in-place header:
/// a size word and a link word.
pub const NODE_SIZE: usize = 16;

/// Alignment the in-place header demands of every free region.
pub const NODE_ALIGN: usize = 8;

/// One free region: the in-memory header holds its size and the link to the
/// next node; the address is where the header sits.
#[derive(Clone, Copy, PartialEq, Eq, Structural, Debug)]
pub struct Node {
    pub addr: usize,
    pub size: usize,
}

impl Node {
    pub open spec fn region(&self) -> Region {
        Region { base: self.addr, size: self.size }
    }

    pub fn new(addr: usize, size: usize) -> (r: Self)
        ensures
            r.addr == addr && r.size == size,
    {
        Node { addr, size }
    }

    pub fn start_addr(&self) -> (r: usize)
        ensures
            r == self.addr,
    {
        self.addr
    }

    pub fn end_addr(&self) -> (r: usize)
        requires
            self.addr + self.size <= usize::MAX,
        ensures
            r == self.addr + self.size,
    {
        self.addr + self.size
    }
}

/// A region fit to carry a free-list header.
pub open spec fn node_wf(n: Node, heap_start: int, heap_end: int) -> bool {
    &&& (n.addr as int) % (NODE_ALIGN as int) == 0
    &&& n.size >= NODE_SIZE
    &&& heap_start <= n.addr
    &&& n.addr + n.size <= heap_end
}

/// Whether an allocation of the adjusted `size` and `align` can be carved
/// out of free region `n`: the aligned start must leave room for `size`
/// bytes, and the tail left over must be nothing or enough for a header.
pub open spec fn spec_fits(n: Node, size: int, align: int) -> bool {
    let start = spec_align_up(n.addr as int, align);
    let excess = n.addr + n.size - (start + size);
    &&& start + size <= n.addr + n.size
    &&& (excess == 0 || excess >= NODE_SIZE)
}

/// First-fit in list order: the head of the free list is the last element
/// of the vector, so the usable node with the greatest index wins.
/// `-1` when no node fits.
pub open spec fn find_fit(free: Seq<Node>, size: int, align: int) -> int
    decreases free.len(),
{
    if free.len() == 0 {
        -1
    } else if spec_fits(free.last(), size, align) {
        free.len() - 1
    } else {
        find_fit(free.drop_last(), size, align)
    }
}

/// An allocator over `[heap_start, heap_end)` whose unused memory is an
/// explicit list of free regions.  The most recently freed region sits at
/// the head of the list (the back of the vector).
pub struct LinkedListAllocator {
    pub free: Vec<Node>,
    pub heap_start: usize,
    pub heap_end: usize,
    /// The outstanding allocations, with their adjusted sizes.
    pub live: Ghost<Seq<Region>>,
}

impl LinkedListAllocator {
    pub open spec fn live_region_wf(&self, r: Region) -> bool {
        &&& (r.base as int) % (NODE_ALIGN as int) == 0
        &&& r.size >= NODE_SIZE
        &&& self.heap_start <= r.base
        &&& region_end(r) <= self.heap_end
    }

    pub open spec fn wf(&self) -> bool {
        &&& self.heap_start <= self.heap_end <= usize::MAX
        &&& (forall|i: int|
            0 <= i < self.free@.len() ==> node_wf(
                #[trigger] self.free@[i],
                self.heap_start as int,
                self.heap_end as int,
            ))
        &&& (forall|i: int, j: int|
            0 <= i < self.free@.len() && 0 <= j < self.free@.len() && i != j
                ==> regions_disjoint(
                #[trigger] self.free@[i].region(),
                #[trigger] self.free@[j].region(),
            ))
        &&& (forall|i: int|
            0 <= i < self.live@.len() ==> self.live_region_wf(#[trigger] self.live@[i]))
        &&& pairwise_disjoint(self.live@)
        &&& (forall|i: int, j: int|
            0 <= i < self.free@.len() && 0 <= j < self.live@.len() ==> regions_disjoint(
                #[trigger] self.free@[i].region(),
                #[trigger] self.live@[j],
            ))
    }

    /// An allocator that owns no heap yet.
    pub fn new() -> (r: Self)
        ensures
            r.wf(),
            r.free@.len() == 0,
            r.live@.len() == 0,
            r.heap_start == 0 && r.heap_end == 0,
    {
        LinkedListAllocator { free: Vec::new(), heap_start: 0, heap_end: 0, live: Ghost(Seq::empty()) }
    }

    pub open spec fn inited(&self, heap_start: usize, heap_size: usize) -> bool {
        &&& self.wf()
        &&& self.heap_start == heap_start
        &&& self.heap_end == heap_start + heap_size
        &&& self.free@ =~= seq![Node { addr: heap_start, size: heap_size }]
        &&& self.live@.len() == 0
    }

    /// Hands the allocator its heap region, once, before any allocation:
    /// the whole region becomes the single free node.
    pub fn init(&mut self, heap_start: usize, heap_size: usize)
        requires
            old(self).free@.len() == 0,
            old(self).live@.len() == 0,
            old(self).heap_start == 0 && old(self).heap_end == 0,
            heap_start % NODE_ALIGN == 0,
            heap_size >= NODE_SIZE,
            heap_start + heap_size <= usize::MAX,
        ensures
            final(self).inited(heap_start, heap_size),
    {
        self.heap_start = heap_start;
        self.heap_end = heap_start + heap_size;
        self.add_free_space(heap_start, heap_size);
    }

    /// Pushes the region `[addr, addr + size)` onto the front of the free
    /// list.  The region must be able to carry a header and must not touch
    /// any free or outstanding region.
    pub fn add_free_space(&mut self, addr: usize, size: usize)
        requires
            old(self).wf(),
            addr % NODE_ALIGN == 0,
            size >= NODE_SIZE,
            old(self).heap_start <= addr,
            addr + size <= old(self).heap_end,
            forall|i: int|
                0 <= i < old(self).free@.len() ==> regions_disjoint(
                    Region { base: addr, size },
                    #[trigger] old(self).free@[i].region(),
                ),
            forall|i: int|
                0 <= i < old(self).live@.len() ==> regions_disjoint(
                    Region { base: addr, size },
                    #[trigger] old(self).live@[i],
                ),
        ensures
            final(self).wf(),
            final(self).free@ == old(self).free@.push(Node { addr, size }),
            final(self).live@ == old(self).live@,
            final(self).heap_start == old(self).heap_start,
            final(self).heap_end == old(self).heap_end,
    {
        self.free.push(Node { addr, size });
    }

    /// Adjusts a requested layout so the allocated region could later carry
    /// a free-list header: alignment is raised to the header's, the size is
    /// padded to a multiple of that alignment and to at least a header.
    pub fn size_align(size: usize, align: usize) -> (r: (usize, usize))
        requires
            size >= 1,
            is_pow2(align as int),
            size + align + NODE_SIZE <= usize::MAX,
        ensures
            r.1 == spec_adjusted_align(align as int),
            r.0 == spec_adjusted_size(size as int, align as int),
            r.0 >= size,
            r.0 >= NODE_SIZE,
            r.0 <= size + align + NODE_SIZE,
            r.1 >= align,
            r.1 >= NODE_ALIGN,
            is_pow2(r.1 as int),
            r.0 % r.1 == 0,
            r.1 % align == 0,
            r.1 % NODE_ALIGN == 0,
    {
        proof {
            lemma_is_pow2_node_align();
        }
        let aalign: usize = if align < NODE_ALIGN {
            proof {
                lemma_pow2_divides(align as int, NODE_ALIGN as int);
            }
            NODE_ALIGN
        } else {
            proof {
                lemma_pow2_divides(NODE_ALIGN as int, align as int);
            }
            align
        };
        let padded: usize = align_up(size, aalign);
        proof {
            lemma_pos_multiple_ge(padded as int, aalign as int);
        }
        let asize: usize = if padded < NODE_SIZE {
            proof {
                // aalign is a multiple of 8 below 16, hence exactly 8,
                // and a header's 16 bytes are a multiple of it
                lemma_pow2_divides(NODE_ALIGN as int, aalign as int);
                assert(aalign <= padded);
                assert(aalign == 8);
            }
            NODE_SIZE
        } else {
            padded
        };
        (asize, aalign)
    }

    /// Whether the given free region can serve an allocation of the
    /// adjusted `size` and `align`; returns the aligned start address.
    pub fn alloc_from(region: &Node, size: usize, align: usize) -> (r: Result<usize, ()>)
        requires
            align >= 1,
            size >= 1,
            region.addr + region.size <= usize::MAX,
        ensures
            match r {
                Ok(a) => spec_fits(*region, size as int, align as int) && a == spec_align_up(
                    region.addr as int,
                    align as int,
                ),
                Err(_) => !spec_fits(*region, size as int, align as int),
            },
    {
        let region_top: usize = region.addr + region.size;
        let alloc_start: usize = match try_align_up(region.addr, align) {
            Some(v) => v,
            None => {
                // the aligned start would lie beyond the address space,
                // so certainly beyond this region
                return Err(());
            },
        };
        if alloc_start > region_top {
            return Err(());
        }
        if size > region_top - alloc_start {
            return Err(());
        }
        let alloc_end: usize = alloc_start + size;
        let excess_size: usize = region_top - alloc_end;
        if excess_size > 0 && excess_size < NODE_SIZE {
            // the tail could not carry a header, so it would be lost;
            // reject the region and let the search continue
            return Err(());
        }
        Ok(alloc_start)
    }

    /// Walks the free list from the head (the most recently freed region),
    /// removes and returns the first node that can serve the request,
    /// together with the aligned allocation start.
    pub fn find_free_space(&mut self, size: usize, align: usize) -> (r: Option<(Node, usize)>)
        requires
            old(self).wf(),
            align >= 1,
            size >= 1,
        ensures
            final(self).heap_start == old(self).heap_start,
            final(self).heap_end == old(self).heap_end,
            final(self).live@ == old(self).live@,
            ({
                let k = find_fit(old(self).free@, size as int, align as int);
                match r {
                    None => k == -1 && final(self).free@ == old(self).free@,
                    Some((n, start)) => {
                        &&& 0 <= k < old(self).free@.len()
                        &&& n == old(self).free@[k]
                        &&& spec_fits(n, size as int, align as int)
                        &&& start == spec_align_up(n.addr as int, align as int)
                        &&& final(self).free@ == old(self).free@.remove(k)
                    },
                }
            }),
    {
        let ghost whole = self.free@;
        let mut i: usize = self.free.len();
        proof {
            assert(whole.take(i as int) =~= whole);
        }
        while i > 0
            invariant
                *self == *old(self),
                self.wf(),
                align >= 1,
                size >= 1,
                i <= self.free@.len(),
                whole == self.free@,
                find_fit(whole, size as int, align as int) == find_fit(
                    whole.take(i as int),
                    size as int,
                    align as int,
                ),
            decreases i,
        {
            i = i - 1;
            let node: Node = self.free[i];
            proof {
                assert(whole.take(i as int + 1).last() == node);
                assert(whole.take(i as int + 1).drop_last() =~= whole.take(i as int));
            }
            match Self::alloc_from(&node, size, align) {
                Ok(start) => {
                    let n = self.free.remove(i);
                    return Some((n, start));
                },
                Err(_) => {},
            }
        }
        proof {
            assert(whole.take(0) =~= Seq::<Node>::empty());
        }
        None
    }

    /// Serves an allocation request: adjusts the layout, finds and removes
    /// a free region first-fit, and returns any usable tail to the list.
    ///
    /// Returns `None` exactly when no free region can serve the adjusted
    /// request; the allocator is then unchanged.
    pub fn allocate(&mut self, size: usize, align: usize) -> (r: Option<usize>)
        requires
            old(self).wf(),
            size >= 1,
            is_pow2(align as int),
            size + align + NODE_SIZE <= usize::MAX,
        ensures
            final(self).wf(),
            final(self).heap_start == old(self).heap_start,
            final(self).heap_end == old(self).heap_end,
            ({
                let asize = spec_adjusted_size(size as int, align as int);
                let aalign = spec_adjusted_align(align as int);
                let k = find_fit(old(self).free@, asize, aalign);
                match r {
                    None => k == -1 && final(self).free@ == old(self).free@
                        && final(self).live@ == old(self).live@,
                    Some(a) => {
                        let node = old(self).free@[k];
                        let excess = node.addr + node.size - (a + asize);
                        &&& 0 <= k < old(self).free@.len()
                        &&& a == spec_align_up(node.addr as int, aalign)
                        &&& a % align == 0
                        &&& old(self).heap_start <= a && a + asize <= old(self).heap_end
                        &&& final(self).live@ == old(self).live@.push(
                            Region { base: a, size: asize as usize },
                        )
                        &&& (forall|i: int|
                            0 <= i < old(self).live@.len() ==> regions_disjoint(
                                Region { base: a, size: asize as usize },
                                #[trigger] old(self).live@[i],
                            ))
                        &&& (excess == 0 ==> final(self).free@ == old(self).free@.remove(k))
                        &&& (excess > 0 ==> final(self).free@ == old(self).free@.remove(k).push(
                            Node { addr: (a + asize) as usize, size: excess as usize },
                        ))
                    },
                }
            }),
    {
        let (asize, aalign) = Self::size_align(size, align);
        match self.find_free_space(asize, aalign) {
            Some((node, alloc_start)) => {
                proof {
                    lemma_is_pow2_node_align();
                }
                let alloc_end: usize = alloc_start + asize;
                let node_top: usize = node.addr + node.size;
                let excess_size: usize = node_top - alloc_end;
                let ghost fresh = Region { base: alloc_start, size: asize };
                proof {
                    let k = find_fit(old(self).free@, asize as int, aalign as int);
                    lemma_spec_align_up(node.addr as int, aalign as int);
                    // the carved region lies inside the node it came from,
                    // so it is clear of every other free or live region
                    assert forall|i: int| 0 <= i < self.live@.len() implies regions_disjoint(
                        fresh,
                        #[trigger] self.live@[i],
                    ) by {
                        assert(regions_disjoint(old(self).free@[k].region(), self.live@[i]));
                    }
                    // the allocation start honours the caller's alignment
                    // and, through the header's, the free list's
                    lemma_mod_chain(alloc_start as int, aalign as int, align as int);
                    lemma_mod_chain(alloc_start as int, aalign as int, NODE_ALIGN as int);
                }
                if excess_size > 0 {
                    proof {
                        let k = find_fit(old(self).free@, asize as int, aalign as int);
                        lemma_mod_sum(alloc_start as int, asize as int, aalign as int);
                        lemma_mod_chain(alloc_end as int, aalign as int, NODE_ALIGN as int);
                        assert forall|i: int| 0 <= i < self.free@.len() implies regions_disjoint(
                            Region { base: alloc_end, size: excess_size },
                            #[trigger] self.free@[i].region(),
                        ) by {
                            assert(self.free@[i] == old(self).free@.remove(k)[i]);
                            assert(regions_disjoint(
                                old(self).free@[k].region(),
                                self.free@[i].region(),
                            ));
                        }
                        assert forall|i: int| 0 <= i < self.live@.len() implies regions_disjoint(
                            Region { base: alloc_end, size: excess_size },
                            #[trigger] self.live@[i],
                        ) by {
                            assert(regions_disjoint(old(self).free@[k].region(), self.live@[i]));
                        }
                    }
                    self.add_free_space(alloc_end, excess_size);
                }
                proof {
                    let k = find_fit(old(self).free@, asize as int, aalign as int);
                    let noder = old(self).free@[k].region();
                    // every region still free is clear of the fresh
                    // allocation: the survivors were clear of the node it
                    // was carved from, and the leftover tail begins at its
                    // end
                    assert forall|i: int| 0 <= i < self.free@.len() implies regions_disjoint(
                        #[trigger] self.free@[i].region(),
                        fresh,
                    ) by {
                        let rem = old(self).free@.remove(k);
                        if i < rem.len() {
                            assert(self.free@[i] == rem[i]);
                            if i < k {
                                assert(rem[i] == old(self).free@[i]);
                            } else {
                                assert(rem[i] == old(self).free@[i + 1]);
                            }
                            assert(regions_disjoint(noder, rem[i].region()));
                        }
                    }
                }
                self.live = Ghost(self.live@.push(fresh));
                Some(alloc_start)
            },
            None => None,
        }
    }

    /// Returns an allocated region: a fresh header is written over the
    /// freed bytes and the region becomes the new head of the free list.
    /// The layout must be the one the region was allocated with.
    pub fn deallocate(&mut self, ptr: usize, size: usize, align: usize)
        requires
            old(self).wf(),
            size >= 1,
            is_pow2(align as int),
            size + align + NODE_SIZE <= usize::MAX,
            old(self).live@.contains(
                Region { base: ptr, size: spec_adjusted_size(size as int, align as int) as usize },
            ),
        ensures
            final(self).wf(),
            final(self).heap_start == old(self).heap_start,
            final(self).heap_end == old(self).heap_end,
            ({
                let region = Region {
                    base: ptr,
                    size: spec_adjusted_size(size as int, align as int) as usize,
                };
                &&& final(self).free@ == old(self).free@.push(
                    Node { addr: ptr, size: region.size },
                )
                &&& final(self).live@ == old(self).live@.remove(old(self).live@.index_of(region))
            }),
    {
        let (asize, _aalign) = Self::size_align(size, align);
        let ghost region = Region { base: ptr, size: asize };
        let ghost idx = self.live@.index_of(region);
        proof {
            assert(self.live@[idx] == region);
            assert(self.live_region_wf(region));
        }
        self.live = Ghost(self.live@.remove(idx));
        proof {
            assert forall|i: int| 0 <= i < self.live@.len() implies regions_disjoint(
                region,
                #[trigger] self.live@[i],
            ) by {
                if i < idx {
                    assert(old(self).live@[i] == self.live@[i]);
                    assert(regions_disjoint(old(self).live@[idx], old(self).live@[i]));
                } else {
                    assert(old(self).live@[i + 1] == self.live@[i]);
                    assert(regions_disjoint(old(self).live@[idx], old(self).live@[i + 1]));
                }
            }
        }
        self.add_free_space(ptr, asize);
    }
}

/// The header alignment the list relies on is a power of two.
pub proof fn lemma_is_pow2_node_align()
    ensures
        is_pow2(NODE_ALIGN as int),
        is_pow2(NODE_SIZE as int),
{
    reveal_with_fuel(is_pow2, 6);
}

/// The adjusted alignment of a request: at least the header's.
pub open spec fn spec_adjusted_align(align: int) -> int {
    if align < NODE_ALIGN as int {
        NODE_ALIGN as int
    } else {
        align
    }
}

/// The adjusted size of a request: padded to a multiple of the adjusted
/// alignment and to at least a header.
pub open spec fn spec_adjusted_size(size: int, align: int) -> int {
    let padded = spec_align_up(size, spec_adjusted_align(align));
    if padded < NODE_SIZE as int {
        NODE_SIZE as int
    } else {
        padded
    }
}

/// Free-list property: in a well-formed allocator the outstanding
/// allocations are pairwise disjoint, lie within the heap, and share no
/// byte with any free region.
pub proof fn lemma_linked_live_disjoint(a: LinkedListAllocator)
    requires
        a.wf(),
    ensures
        pairwise_disjoint(a.live@),
        forall|i: int|
            0 <= i < a.live@.len() ==> a.heap_start <= #[trigger] a.live@[i].base && region_end(
                a.live@[i],
            ) <= a.heap_end,
        forall|i: int, j: int|
            0 <= i < a.free@.len() && 0 <= j < a.live@.len() ==> regions_disjoint(
                #[trigger] a.free@[i].region(),
                #[trigger] a.live@[j],
            ),
{
}

} // verus!
