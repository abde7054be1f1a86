use kios_kernel::allocators::align_up;
use kios_kernel::allocators::bump::BumpAllocator;
use kios_kernel::allocators::fixed::FixedSizeBlockAllocator;
use kios_kernel::allocators::linked::LinkedListAllocator;

#[test]
fn align_up_rounds_to_the_next_multiple() {
    assert_eq!(align_up(0, 8), 0);
    assert_eq!(align_up(5, 8), 8);
    assert_eq!(align_up(8, 8), 8);
    assert_eq!(align_up(17, 16), 32);
    assert_eq!(align_up(100, 1), 100);
}

#[test]
fn size_align_pads_for_the_header() {
    // alignment is raised to the header's, the size to a multiple of it
    // and to at least one header
    assert_eq!(LinkedListAllocator::size_align(10, 8), (16, 8));
    assert_eq!(LinkedListAllocator::size_align(40, 8), (40, 8));
    assert_eq!(LinkedListAllocator::size_align(1, 1), (16, 8));
    assert_eq!(LinkedListAllocator::size_align(20, 16), (32, 16));
    assert_eq!(LinkedListAllocator::size_align(2048, 2048), (2048, 2048));
}

#[test]
fn bump_scenario_fills_drains_and_resets() {
    // heap = 1024 bytes at address 0
    let mut b = BumpAllocator::new();
    b.init(0, 1024);
    assert_eq!(b.allocate(100, 1), Some(0));
    assert_eq!(b.allocate(100, 1), Some(100));
    assert_eq!(b.allocate(100, 1), Some(200));
    assert_eq!(b.allocations, 3);
    // only 724 bytes are left
    assert_eq!(b.allocate(800, 1), None);
    b.deallocate(0, 100);
    b.deallocate(100, 100);
    b.deallocate(200, 100);
    // outstanding = 0: the cursor rewinds to the heap start
    assert_eq!(b.allocations, 0);
    assert_eq!(b.next, 0);
    assert_eq!(b.allocate(1024, 1), Some(0));
}

#[test]
fn bump_respects_alignment() {
    let mut b = BumpAllocator::new();
    b.init(0, 1024);
    assert_eq!(b.allocate(3, 1), Some(0));
    // the cursor stands at 3; a 16-aligned request starts at 16
    assert_eq!(b.allocate(8, 16), Some(16));
}

#[test]
fn bump_without_heap_is_exhausted() {
    let mut b = BumpAllocator::new();
    assert_eq!(b.allocate(1, 1), None);
}

#[test]
fn linked_scenario_splits_and_consumes() {
    // heap = 64 bytes, header size = 16: one free node [0, 64)
    let mut a = LinkedListAllocator::new();
    a.init(0, 64);
    assert_eq!(a.free.len(), 1);
    // size 10 align 8 adjusts to 16: address 0, leftover node [16, 64)
    assert_eq!(a.allocate(10, 8), Some(0));
    assert_eq!(a.free.len(), 1);
    assert_eq!(a.free[0].addr, 16);
    assert_eq!(a.free[0].size, 48);
    // size 40 align 8 would leave a tail of 8 bytes, too small for a
    // header: the node is rejected and the list has no other
    assert_eq!(a.allocate(40, 8), None);
    assert_eq!(a.free.len(), 1);
    // size 48 consumes the node exactly
    assert_eq!(a.allocate(48, 8), Some(16));
    assert_eq!(a.free.len(), 0);
    // nothing is left
    assert_eq!(a.allocate(1, 1), None);
}

#[test]
fn linked_reuses_the_most_recently_freed_region_first() {
    let mut a = LinkedListAllocator::new();
    a.init(0, 64);
    assert_eq!(a.allocate(10, 8), Some(0));
    a.deallocate(0, 10, 8);
    // the freed region [0, 16) is the head of the list and is tried first
    assert_eq!(a.free.len(), 2);
    assert_eq!(a.allocate(10, 8), Some(0));
}

#[test]
fn linked_keeps_freed_neighbours_apart() {
    // freed neighbouring regions are not coalesced: two entries stay two
    let mut a = LinkedListAllocator::new();
    a.init(0, 64);
    assert_eq!(a.allocate(16, 8), Some(0));
    assert_eq!(a.allocate(16, 8), Some(16));
    a.deallocate(0, 16, 8);
    a.deallocate(16, 16, 8);
    assert_eq!(a.free.len(), 3);
    // a request for 32 bytes fits neither 16-byte fragment, only the tail
    assert_eq!(a.allocate(32, 8), Some(32));
}

#[test]
fn fixed_recycles_blocks_without_touching_the_fallback() {
    // three allocations of a size that maps to class 32
    let mut f = FixedSizeBlockAllocator::new();
    f.init(0, 4096);
    let a1 = f.allocate(20, 8).unwrap();
    let a2 = f.allocate(20, 8).unwrap();
    let a3 = f.allocate(20, 8).unwrap();
    assert_eq!((a1, a2, a3), (0, 32, 64));
    f.deallocate(a1, 20, 8);
    f.deallocate(a2, 20, 8);
    f.deallocate(a3, 20, 8);
    assert_eq!(f.class_lists[2].len(), 3);
    let fallback_nodes: Vec<(usize, usize)> =
        f.fallback.free.iter().map(|n| (n.addr, n.size)).collect();
    // the second round is served from the class stack, most recently
    // freed first, and the fallback allocator is not consulted
    assert_eq!(f.allocate(20, 8), Some(a3));
    assert_eq!(f.allocate(20, 8), Some(a2));
    assert_eq!(f.allocate(20, 8), Some(a1));
    assert_eq!(f.class_lists[2].len(), 0);
    let fallback_after: Vec<(usize, usize)> =
        f.fallback.free.iter().map(|n| (n.addr, n.size)).collect();
    assert_eq!(fallback_nodes, fallback_after);
}

#[test]
fn fixed_delegates_large_requests_to_the_fallback() {
    let mut f = FixedSizeBlockAllocator::new();
    f.init(0, 8192);
    let a = f.allocate(3000, 8).unwrap();
    assert_eq!(a % 8, 0);
    for c in 0..9 {
        assert_eq!(f.class_lists[c].len(), 0);
    }
    f.deallocate(a, 3000, 8);
    for c in 0..9 {
        assert_eq!(f.class_lists[c].len(), 0);
    }
}

#[test]
fn fixed_fails_when_the_heap_is_exhausted() {
    let mut f = FixedSizeBlockAllocator::new();
    f.init(0, 64);
    assert!(f.allocate(20, 8).is_some());
    assert!(f.allocate(20, 8).is_some());
    // the fallback has nothing left to carve a further block from
    assert_eq!(f.allocate(20, 8), None);
}
