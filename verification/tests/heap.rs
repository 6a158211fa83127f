use aetherion::allocator::bump::{align_up, BumpAllocator};
use aetherion::allocator::linked_list::LinkedListAllocator;

#[test]
fn test_align_up() {
    assert_eq!(align_up(0, 4), 0);
    assert_eq!(align_up(1, 4), 4);
    assert_eq!(align_up(4, 4), 4);
    assert_eq!(align_up(5, 4), 8);
    assert_eq!(align_up(0x1234, 4096), 0x2000);
}

#[test]
fn test_bump_allocator() {
    let mut allocator = BumpAllocator::new();
    allocator.init(0x10000, 4096);

    let stats = allocator.stats();
    assert_eq!(stats.heap_start, 0x10000);
    assert_eq!(stats.heap_size, 4096);
    assert_eq!(stats.used, 0);
    assert_eq!(stats.free, 4096);
}

#[test]
fn test_allocation() {
    let mut allocator = BumpAllocator::new();
    allocator.init(0x10000, 4096);

    let ptr1 = allocator.allocate(16, 8);
    assert!(ptr1 != 0);
    assert_eq!(ptr1, 0x10000);

    let ptr2 = allocator.allocate(32, 8);
    assert!(ptr2 != 0);
    assert_eq!(ptr2, 0x10010); // After 16 bytes

    assert_eq!(allocator.allocation_count(), 2);
}

#[test]
fn bump_test_out_of_memory() {
    let mut allocator = BumpAllocator::new();
    allocator.init(0x10000, 64); // Small heap

    // Allocate entire heap
    let ptr1 = allocator.allocate(64, 1);
    assert!(ptr1 != 0);

    // Next allocation should fail
    let ptr2 = allocator.allocate(64, 1);
    assert!(ptr2 == 0);
}

#[test]
fn test_reset() {
    let mut allocator = BumpAllocator::new();
    allocator.init(0x10000, 4096);

    allocator.allocate(16, 8);
    allocator.allocate(16, 8);

    assert_eq!(allocator.allocation_count(), 2);

    allocator.reset();
    assert_eq!(allocator.allocation_count(), 0);

    let stats = allocator.stats();
    assert_eq!(stats.used, 0);
}

#[test]
fn test_heap_stats() {
    let mut allocator = BumpAllocator::new();
    allocator.init(0x10000, 1024);

    let stats = allocator.stats();
    assert_eq!(stats.heap_start, 0x10000);
    assert_eq!(stats.heap_size, 1024);
}

#[test]
fn test_linked_list_allocator() {
    let mut allocator = LinkedListAllocator::new();
    allocator.init(0x1000, 1024);
}

#[test]
fn test_alloc_dealloc() {
    let mut allocator = LinkedListAllocator::new();
    allocator.init(0x1000, 1024);

    // Allocate
    let ptr1 = allocator.allocate(64, 8);
    assert!(ptr1 != 0);

    // Deallocate
    allocator.deallocate(ptr1, 64);

    // Allocate again (should reuse freed block)
    let ptr2 = allocator.allocate(64, 8);
    assert!(ptr2 != 0);
}

#[test]
fn test_multiple_allocs() {
    let mut allocator = LinkedListAllocator::new();
    allocator.init(0x1000, 4096);

    // Allocate 10 blocks
    let mut ptrs = Vec::new();
    for _ in 0..10 {
        let ptr = allocator.allocate(16, 8);
        assert!(ptr != 0);
        ptrs.push(ptr);
    }

    // Deallocate all
    for ptr in ptrs {
        allocator.deallocate(ptr, 16);
    }
}

#[test]
fn test_first_fit_reuse() {
    // Free-list round trip: freeing a block and allocating the same size
    // again hands back the same address (first fit finds the fresh head).
    let mut allocator = LinkedListAllocator::new();
    allocator.init(0x1000, 1024);
    let ptr1 = allocator.allocate(64, 8);
    assert!(ptr1 != 0);
    allocator.deallocate(ptr1, 64);
    let ptr2 = allocator.allocate(64, 8);
    assert_eq!(ptr1, ptr2);
}

#[test]
fn test_linked_list_split_and_exhaust() {
    let mut allocator = LinkedListAllocator::new();
    allocator.init(0x1000, 64);
    // First fit at the region start; the 32-byte remainder is kept.
    let p1 = allocator.allocate(32, 8);
    assert_eq!(p1, 0x1000);
    let p2 = allocator.allocate(32, 8);
    assert_eq!(p2, 0x1020);
    // Nothing is left.
    assert_eq!(allocator.allocate(16, 8), 0);
    // A remainder smaller than a node is absorbed rather than kept.
    let mut a2 = LinkedListAllocator::new();
    a2.init(0x2000, 40);
    let q = a2.allocate(32, 8);
    assert_eq!(q, 0x2000);
    assert_eq!(a2.allocate(16, 8), 0);
}

#[test]
fn test_bump_alignment_gap() {
    let mut allocator = BumpAllocator::new();
    allocator.init(0x10001, 4096);
    // The cursor aligns up before serving the request.
    let p = allocator.allocate(8, 16);
    assert_eq!(p, 0x10010);
    assert_eq!(p % 16, 0);
    // Deallocation is a no-op: the cursor never moves back.
    let used_before = allocator.stats().used;
    allocator.deallocate(p, 8, 16);
    assert_eq!(allocator.stats().used, used_before);
}
