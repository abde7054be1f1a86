//! The size-classed strategy: one free list of equal-sized blocks per
//! class, with the free-list allocator as fallback for what no class fits.
//! This is the kernel's default allocator: the common small allocation is
//! served and returned in constant time, and a block freed into its class
//! is recycled without ever going back to the fallback.

use vstd::prelude::*;

verus! {

use crate::allocators::{is_pow2, lemma_mod_chain, lemma_pow2_divides};
use crate::allocators::linked::{
    LinkedListAllocator, NODE_SIZE, find_fit, spec_adjusted_size, spec_adjusted_align,
    lemma_is_pow2_node_align,
};

/// How many size classes there are: 8, 16, ..., 2048 bytes.
pub const CLASS_COUNT: usize = 9;

/// The block size of a class; each class's natural alignment is its size.
pub fn class_block_size(class: usize) -> (r: usize)
    requires
        class < CLASS_COUNT,
    ensures
        r == spec_class_size(class as int),
{
    if class == 0 {
        8
    } else if class == 1 {
        16
    } else if class == 2 {
        32
    } else if class == 3 {
        64
    } else if class == 4 {
        128
    } else if class == 5 {
        256
    } else if class == 6 {
        512
    } else if class == 7 {
        1024
    } else {
        2048
    }
}

pub open spec fn spec_class_size(class: int) -> int {
    if class == 0 {
        8
    } else if class == 1 {
        16
    } else if class == 2 {
        32
    } else if class == 3 {
        64
    } else if class == 4 {
        128
    } else if class == 5 {
        256
    } else if class == 6 {
        512
    } else if class == 7 {
        1024
    } else {
        2048
    }
}

/// The class that serves a request, if any: the smallest whose block size
/// covers the requested size and whose natural alignment covers the
/// requested alignment.
pub open spec fn spec_class_of(size: int, align: int) -> Option<int> {
    if size <= 8 && align <= 8 {
        Some(0int)
    } else if size <= 16 && align <= 16 {
        Some(1int)
    } else if size <= 32 && align <= 32 {
        Some(2int)
    } else if size <= 64 && align <= 64 {
        Some(3int)
    } else if size <= 128 && align <= 128 {
        Some(4int)
    } else if size <= 256 && align <= 256 {
        Some(5int)
    } else if size <= 512 && align <= 512 {
        Some(6int)
    } else if size <= 1024 && align <= 1024 {
        Some(7int)
    } else if size <= 2048 && align <= 2048 {
        Some(8int)
    } else {
        None
    }
}

/// Picks the class for a request.
pub fn class_of(size: usize, align: usize) -> (r: Option<usize>)
    ensures
        match r {
            Some(c) => {
                &&& spec_class_of(size as int, align as int) == Some(c as int)
                &&& c < CLASS_COUNT
                &&& size <= spec_class_size(c as int)
                &&& align <= spec_class_size(c as int)
            },
            None => spec_class_of(size as int, align as int) is None && (size > 2048 || align
                > 2048),
        },
{
    if size <= 8 && align <= 8 {
        Some(0)
    } else if size <= 16 && align <= 16 {
        Some(1)
    } else if size <= 32 && align <= 32 {
        Some(2)
    } else if size <= 64 && align <= 64 {
        Some(3)
    } else if size <= 128 && align <= 128 {
        Some(4)
    } else if size <= 256 && align <= 256 {
        Some(5)
    } else if size <= 512 && align <= 512 {
        Some(6)
    } else if size <= 1024 && align <= 1024 {
        Some(7)
    } else if size <= 2048 && align <= 2048 {
        Some(8)
    } else {
        None
    }
}

/// The kernel's default allocator: per-class stacks of free block
/// addresses, and a free-list allocator that backs them.
pub struct FixedSizeBlockAllocator {
    /// One stack of free block addresses per size class; the top of the
    /// stack (back of the vector) is taken first.
    pub class_lists: Vec<Vec<usize>>,
    /// Serves large or irregular requests, and carves new blocks when a
    /// class runs dry.
    pub fallback: LinkedListAllocator,
}

impl FixedSizeBlockAllocator {
    /// The state the recycling law is stated over.
    pub open spec fn model(&self) -> FixedView {
        FixedView {
            classes: Seq::new(self.class_lists@.len() as nat, |c: int| self.class_lists@[c]@),
            fallback_free: self.fallback.free@,
            fallback_live: self.fallback.live@,
        }
    }

    pub open spec fn wf(&self) -> bool {
        &&& self.class_lists@.len() == CLASS_COUNT
        &&& self.fallback.wf()
        &&& (forall|c: int, i: int|
            0 <= c < CLASS_COUNT && 0 <= i < self.class_lists@[c]@.len() ==> (
            #[trigger] self.class_lists@[c]@[i]) as int % spec_class_size(c) == 0)
    }

    /// An allocator that owns no heap yet.
    pub fn new() -> (r: Self)
        ensures
            r.wf(),
            forall|c: int| 0 <= c < CLASS_COUNT ==> (#[trigger] r.class_lists@[c]@).len() == 0,
            r.fallback.free@.len() == 0,
            r.fallback.live@.len() == 0,
            r.fallback.heap_start == 0 && r.fallback.heap_end == 0,
    {
        let mut lists: Vec<Vec<usize>> = Vec::new();
        while lists.len() < CLASS_COUNT
            invariant
                lists@.len() <= CLASS_COUNT,
                forall|c: int| 0 <= c < lists@.len() ==> (#[trigger] lists@[c]@).len() == 0,
            decreases CLASS_COUNT - lists@.len(),
        {
            lists.push(Vec::new());
        }
        FixedSizeBlockAllocator { class_lists: lists, fallback: LinkedListAllocator::new() }
    }

    /// Hands the allocator its heap region, once, before any allocation;
    /// the whole region goes to the fallback allocator.
    pub fn init(&mut self, heap_start: usize, heap_size: usize)
        requires
            old(self).wf(),
            forall|c: int|
                0 <= c < CLASS_COUNT ==> (#[trigger] old(self).class_lists@[c]@).len() == 0,
            old(self).fallback.free@.len() == 0,
            old(self).fallback.live@.len() == 0,
            old(self).fallback.heap_start == 0 && old(self).fallback.heap_end == 0,
            heap_start % 8 == 0,
            heap_size >= NODE_SIZE,
            heap_start + heap_size <= usize::MAX,
        ensures
            final(self).wf(),
            final(self).fallback.inited(heap_start, heap_size),
            forall|c: int|
                0 <= c < CLASS_COUNT ==> (#[trigger] final(self).class_lists@[c]@).len() == 0,
    {
        self.fallback.init(heap_start, heap_size);
    }

    /// Serves a request: a block popped from its size class in constant
    /// time where one is ready; a freshly carved block of the class size
    /// where the class is dry; the fallback allocator's first fit where no
    /// class covers the request.
    ///
    /// Whenever the class stack holds a block, the fallback allocator is
    /// not consulted and stays as it was.
    pub fn allocate(&mut self, size: usize, align: usize) -> (r: Option<usize>)
        requires
            old(self).wf(),
            size >= 1,
            is_pow2(align as int),
            size + align + NODE_SIZE <= usize::MAX,
        ensures
            final(self).wf(),
            final(self).fallback.heap_start == old(self).fallback.heap_start,
            final(self).fallback.heap_end == old(self).fallback.heap_end,
            r is Some ==> r.unwrap() % align == 0,
            ({
                match spec_class_of(size as int, align as int) {
                    Some(c) => {
                        &&& (r is Some ==> size <= spec_class_size(c))
                        &&& (old(self).class_lists@[c]@.len() > 0 ==> {
                            let stack = old(self).class_lists@[c]@;
                            &&& r == Some(stack.last())
                            &&& final(self).model() == spec_alloc_class_hit(
                                old(self).model(),
                                c,
                            )
                            &&& final(self).class_lists@[c]@ == stack.drop_last()
                            &&& (forall|d: int|
                                0 <= d < CLASS_COUNT && d != c
                                    ==> (#[trigger] final(self).class_lists@[d])@ == old(
                                    self,
                                ).class_lists@[d]@)
                            &&& final(self).fallback == old(self).fallback
                        })
                        &&& (old(self).class_lists@[c]@.len() == 0 ==> {
                            &&& final(self).class_lists@ == old(self).class_lists@
                            &&& (r is Some ==> (r.unwrap() as int) % spec_class_size(c) == 0)
                            &&& (r is Some ==> final(self).fallback.live@ == old(
                                self,
                            ).fallback.live@.push(
                                crate::allocators::Region {
                                    base: r.unwrap(),
                                    size: spec_adjusted_size(
                                        spec_class_size(c),
                                        spec_class_size(c),
                                    ) as usize,
                                },
                            ))
                            &&& (r is None <==> find_fit(
                                old(self).fallback.free@,
                                spec_adjusted_size(spec_class_size(c), spec_class_size(c)),
                                spec_adjusted_align(spec_class_size(c)),
                            ) == -1)
                            &&& (r is None ==> final(self).fallback.free@ == old(
                                self,
                            ).fallback.free@ && final(self).fallback.live@ == old(
                                self,
                            ).fallback.live@)
                        })
                    },
                    None => {
                        &&& final(self).class_lists@ == old(self).class_lists@
                        &&& (r is Some ==> final(self).fallback.live@ == old(
                            self,
                        ).fallback.live@.push(
                            crate::allocators::Region {
                                base: r.unwrap(),
                                size: spec_adjusted_size(size as int, align as int) as usize,
                            },
                        ))
                        &&& (r is None <==> find_fit(
                            old(self).fallback.free@,
                            spec_adjusted_size(size as int, align as int),
                            spec_adjusted_align(align as int),
                        ) == -1)
                        &&& (r is None ==> final(self).fallback.free@ == old(
                            self,
                        ).fallback.free@ && final(self).fallback.live@ == old(
                            self,
                        ).fallback.live@)
                    },
                }
            }),
    {
        match class_of(size, align) {
            Some(class) => {
                let block_size: usize = class_block_size(class);
                let stack_len: usize = self.class_lists[class].len();
                if stack_len > 0 {
                    let list = &mut self.class_lists[class];
                    let addr: Option<usize> = list.pop();
                    let a = addr.unwrap();
                    proof {
                        lemma_class_alignment(a as int, class as int, align as int);
                        assert(self.model().classes =~~= spec_alloc_class_hit(
                            old(self).model(),
                            class as int,
                        ).classes);
                        assert(self.model() =~~= spec_alloc_class_hit(
                            old(self).model(),
                            class as int,
                        ));
                    }
                    Some(a)
                } else {
                    // class is dry: carve one block of exactly the class
                    // size (and its natural alignment) from the fallback
                    proof {
                        lemma_is_pow2_class(class as int);
                        lemma_is_pow2_node_align();
                    }
                    match self.fallback.allocate(block_size, block_size) {
                        Some(a) => {
                            proof {
                                lemma_class_alignment(a as int, class as int, align as int);
                            }
                            Some(a)
                        },
                        None => None,
                    }
                }
            },
            None => self.fallback.allocate(size, align),
        }
    }

    /// Takes a block back: pushed onto its class stack in constant time
    /// where the request mapped to a class, handed to the fallback
    /// allocator otherwise.  A class-sized block never reaches the
    /// fallback, so a drained class refills at no fallback cost.
    pub fn deallocate(&mut self, ptr: usize, size: usize, align: usize)
        requires
            old(self).wf(),
            size >= 1,
            is_pow2(align as int),
            size + align + NODE_SIZE <= usize::MAX,
            match spec_class_of(size as int, align as int) {
                Some(c) => (ptr as int) % spec_class_size(c) == 0,
                None => old(self).fallback.live@.contains(
                    crate::allocators::Region {
                        base: ptr,
                        size: spec_adjusted_size(size as int, align as int) as usize,
                    },
                ),
            },
        ensures
            final(self).wf(),
            final(self).fallback.heap_start == old(self).fallback.heap_start,
            final(self).fallback.heap_end == old(self).fallback.heap_end,
            ({
                match spec_class_of(size as int, align as int) {
                    Some(c) => {
                        &&& final(self).model() == spec_free_into_class(
                            old(self).model(),
                            c,
                            ptr,
                        )
                        &&& final(self).class_lists@[c]@ == old(self).class_lists@[c]@.push(ptr)
                        &&& (forall|d: int|
                            0 <= d < CLASS_COUNT && d != c
                                ==> (#[trigger] final(self).class_lists@[d])@ == old(
                                self,
                            ).class_lists@[d]@)
                        &&& final(self).fallback == old(self).fallback
                    },
                    None => {
                        &&& final(self).class_lists@ == old(self).class_lists@
                        &&& final(self).fallback.free@ == old(self).fallback.free@.push(
                            crate::allocators::linked::Node {
                                addr: ptr,
                                size: spec_adjusted_size(size as int, align as int) as usize,
                            },
                        )
                    },
                }
            }),
    {
        match class_of(size, align) {
            Some(class) => {
                let list = &mut self.class_lists[class];
                list.push(ptr);
                proof {
                    assert(self.model().classes =~~= spec_free_into_class(
                        old(self).model(),
                        class as int,
                        ptr,
                    ).classes);
                    assert(self.model() =~~= spec_free_into_class(
                        old(self).model(),
                        class as int,
                        ptr,
                    ));
                }
            },
            None => {
                self.fallback.deallocate(ptr, size, align);
            },
        }
    }
}

/// The allocator's state as the recycling law speaks of it: the per-class
/// stacks and the two components of the fallback allocator.
#[verifier::ext_equal]
pub struct FixedView {
    pub classes: Seq<Seq<usize>>,
    pub fallback_free: Seq<crate::allocators::linked::Node>,
    pub fallback_live: Seq<crate::allocators::Region>,
}

/// Freeing a block into its class pushes it onto the class stack and
/// leaves the fallback allocator untouched, as `deallocate` ensures.
pub open spec fn spec_free_into_class(v: FixedView, c: int, addr: usize) -> FixedView {
    FixedView { classes: v.classes.update(c, v.classes[c].push(addr)), ..v }
}

/// An allocation served from a non-empty class stack pops its top and
/// leaves the fallback allocator untouched, as `allocate` ensures.
pub open spec fn spec_alloc_class_hit(v: FixedView, c: int) -> FixedView {
    FixedView { classes: v.classes.update(c, v.classes[c].drop_last()), ..v }
}

/// Frees a whole batch of blocks into one class, first to last.
pub open spec fn spec_free_all(v: FixedView, c: int, addrs: Seq<usize>) -> FixedView
    decreases addrs.len(),
{
    if addrs.len() == 0 {
        v
    } else {
        spec_free_all(spec_free_into_class(v, c, addrs[0]), c, addrs.skip(1))
    }
}

/// Serves `n` requests of one class, each from the class stack.
pub open spec fn spec_alloc_hits(v: FixedView, c: int, n: nat) -> FixedView
    decreases n,
{
    if n == 0 {
        v
    } else {
        spec_alloc_hits(spec_alloc_class_hit(v, c), c, (n - 1) as nat)
    }
}

proof fn lemma_free_all_effect(v: FixedView, c: int, addrs: Seq<usize>)
    requires
        0 <= c < v.classes.len(),
    ensures
        spec_free_all(v, c, addrs).classes.len() == v.classes.len(),
        spec_free_all(v, c, addrs).classes[c] == v.classes[c] + addrs,
        forall|d: int|
            0 <= d < v.classes.len() && d != c ==> spec_free_all(v, c, addrs).classes[d] == v.classes[d],
        spec_free_all(v, c, addrs).fallback_free == v.fallback_free,
        spec_free_all(v, c, addrs).fallback_live == v.fallback_live,
    decreases addrs.len(),
{
    if addrs.len() == 0 {
        assert(v.classes[c] + addrs =~= v.classes[c]);
    } else {
        let w = spec_free_into_class(v, c, addrs[0]);
        lemma_free_all_effect(w, c, addrs.skip(1));
        assert(w.classes[c] + addrs.skip(1) =~= v.classes[c] + addrs);
        assert forall|d: int|
            0 <= d < v.classes.len() && d != c implies spec_free_all(v, c, addrs).classes[d]
            == v.classes[d] by {
            assert(spec_free_all(v, c, addrs) == spec_free_all(w, c, addrs.skip(1)));
            assert(spec_free_all(w, c, addrs.skip(1)).classes[d] == w.classes[d]);
        }
    }
}

proof fn lemma_alloc_hits_effect(v: FixedView, c: int, n: nat)
    requires
        0 <= c < v.classes.len(),
        n <= v.classes[c].len(),
    ensures
        spec_alloc_hits(v, c, n).classes.len() == v.classes.len(),
        spec_alloc_hits(v, c, n).classes[c] == v.classes[c].take(v.classes[c].len() - n),
        forall|d: int|
            0 <= d < v.classes.len() && d != c ==> spec_alloc_hits(v, c, n).classes[d] == v.classes[d],
        spec_alloc_hits(v, c, n).fallback_free == v.fallback_free,
        spec_alloc_hits(v, c, n).fallback_live == v.fallback_live,
    decreases n,
{
    if n == 0 {
        assert(v.classes[c].take(v.classes[c].len() as int) =~= v.classes[c]);
    } else {
        let w = spec_alloc_class_hit(v, c);
        lemma_alloc_hits_effect(w, c, (n - 1) as nat);
        assert(w.classes[c].take(w.classes[c].len() - (n - 1)) =~= v.classes[c].take(
            v.classes[c].len() - n,
        ));
        assert forall|d: int|
            0 <= d < v.classes.len() && d != c implies spec_alloc_hits(v, c, n).classes[d]
            == v.classes[d] by {
            assert(spec_alloc_hits(v, c, n) == spec_alloc_hits(w, c, (n - 1) as nat));
            assert(spec_alloc_hits(w, c, (n - 1) as nat).classes[d] == w.classes[d]);
        }
    }
}

/// Fixed-block recycling: free any batch of blocks into a class, and the
/// same number of requests of that class afterwards are all served from
/// the class stack — each request finds the stack non-empty (so, by
/// `allocate`'s contract, the fallback allocator is never consulted) —
/// and the whole round leaves every class stack and the fallback
/// allocator exactly as they were.
pub proof fn lemma_class_recycling(v: FixedView, c: int, addrs: Seq<usize>)
    requires
        0 <= c < v.classes.len(),
    ensures
        forall|k: nat|
            k < addrs.len() ==> (#[trigger] spec_alloc_hits(
                spec_free_all(v, c, addrs),
                c,
                k,
            )).classes[c].len() > 0,
        spec_alloc_hits(spec_free_all(v, c, addrs), c, addrs.len()).classes.len()
            == v.classes.len(),
        spec_alloc_hits(spec_free_all(v, c, addrs), c, addrs.len()).classes[c] == v.classes[c],
        forall|d: int|
            0 <= d < v.classes.len() && d != c ==> spec_alloc_hits(
                spec_free_all(v, c, addrs),
                c,
                addrs.len(),
            ).classes[d] == v.classes[d],
        spec_alloc_hits(spec_free_all(v, c, addrs), c, addrs.len()).fallback_free
            == v.fallback_free,
        spec_alloc_hits(spec_free_all(v, c, addrs), c, addrs.len()).fallback_live
            == v.fallback_live,
{
    let filled = spec_free_all(v, c, addrs);
    lemma_free_all_effect(v, c, addrs);
    lemma_alloc_hits_effect(filled, c, addrs.len());
    assert(filled.classes[c].take(filled.classes[c].len() - addrs.len()) =~= v.classes[c]);
    assert forall|k: nat| k < addrs.len() implies (#[trigger] spec_alloc_hits(
        filled,
        c,
        k,
    )).classes[c].len() > 0 by {
        lemma_alloc_hits_effect(filled, c, k);
    }
}

/// Every class block size is a power of two.
pub proof fn lemma_is_pow2_class(c: int)
    ensures
        is_pow2(spec_class_size(c)),
        8 <= spec_class_size(c) <= 2048,
{
    reveal_with_fuel(is_pow2, 12);
}

/// A block aligned to its class size satisfies any request the class
/// covers: the requested alignment divides the class size.
pub proof fn lemma_class_alignment(addr: int, c: int, align: int)
    requires
        is_pow2(align),
        align <= spec_class_size(c),
        addr % spec_class_size(c) == 0,
    ensures
        addr % align == 0,
{
    lemma_is_pow2_class(c);
    lemma_pow2_divides(align, spec_class_size(c));
    lemma_mod_chain(addr, spec_class_size(c), align);
}

} // verus!
