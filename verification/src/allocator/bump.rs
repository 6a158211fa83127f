//! Bump-pointer heap: allocation advances a cursor, deallocation is a
//! no-op, and the whole region is reclaimed only by a full reset.

use crate::allocator::HeapStats;
use crate::memory::{align_up_spec, is_pow2};
use vstd::prelude::*;

verus! {

/// Align `addr` up to the nearest multiple of `align`.
pub fn align_up(addr: usize, align: usize) -> (r: usize)
    requires
        is_pow2(align),
        addr + align - 1 <= usize::MAX,
    ensures
        r == align_up_spec(addr, align),
{
    let rem = addr % align;
    if rem == 0 {
        addr
    } else {
        addr + (align - rem)
    }
}

/// Bump allocator over `[heap_start, heap_end)`: a cursor `next` walks
/// forward, and a counter records how many allocations were served.
pub struct BumpAllocator {
    heap_start: usize,
    heap_end: usize,
    next: usize,
    allocations: usize,
}

impl BumpAllocator {
    /// First byte of the heap region.
    pub closed spec fn spec_start(self) -> usize {
        self.heap_start
    }

    /// One past the last byte of the heap region.
    pub closed spec fn spec_end(self) -> usize {
        self.heap_end
    }

    /// The cursor: next byte to hand out.
    pub closed spec fn spec_next(self) -> usize {
        self.next
    }

    /// Number of allocations served since the last reset.
    pub closed spec fn spec_allocations(self) -> usize {
        self.allocations
    }

    /// The cursor always stays inside the region.
    pub open spec fn wf(self) -> bool {
        self.spec_start() <= self.spec_next() <= self.spec_end()
    }

    /// Create a new, uninitialized bump allocator over the empty region.
    pub fn new() -> (r: Self)
        ensures
            r.wf(),
            r.spec_start() == 0,
            r.spec_end() == 0,
            r.spec_next() == 0,
            r.spec_allocations() == 0,
    {
        BumpAllocator { heap_start: 0, heap_end: 0, next: 0, allocations: 0 }
    }

    /// Give the allocator its heap region and rewind it.
    pub fn init(&mut self, heap_start: usize, heap_size: usize)
        requires
            heap_start + heap_size <= usize::MAX,
        ensures
            final(self).wf(),
            final(self).spec_start() == heap_start,
            final(self).spec_end() == heap_start + heap_size,
            final(self).spec_next() == heap_start,
            final(self).spec_allocations() == 0,
    {
        self.heap_start = heap_start;
        self.heap_end = heap_start + heap_size;
        self.next = heap_start;
        self.allocations = 0;
    }

    /// Whether a request of `size` bytes at alignment `align` fits the
    /// remaining space behind the cursor.
    pub open spec fn fits(self, size: usize, align: usize) -> bool {
        align_up_spec(self.spec_next(), align) + size <= self.spec_end()
    }

    /// Allocate `size` bytes aligned to `align`: align the cursor up,
    /// check the space, and advance. Returns the aligned start, or the
    /// invalid address 0 when the request does not fit.
    pub fn allocate(&mut self, size: usize, align: usize) -> (r: usize)
        requires
            old(self).wf(),
            is_pow2(align),
            old(self).spec_allocations() < usize::MAX,
        ensures
            final(self).wf(),
            final(self).spec_start() == old(self).spec_start(),
            final(self).spec_end() == old(self).spec_end(),
            old(self).fits(size, align) ==> {
                &&& r == align_up_spec(old(self).spec_next(), align)
                &&& r % align == 0
                &&& old(self).spec_next() <= r
                &&& final(self).spec_next() == r + size
                &&& final(self).spec_allocations() == old(self).spec_allocations() + 1
            },
            !old(self).fits(size, align) ==> r == 0 && *final(self) == *old(self),
    {
        let rem = self.next % align;
        let alloc_start = if rem == 0 {
            self.next
        } else {
            if align - rem > usize::MAX - self.next {
                // The aligned cursor lies beyond the largest address, so
                // it certainly lies beyond `heap_end`.
                return 0;
            }
            self.next + (align - rem)
        };
        if size > usize::MAX - alloc_start {
            return 0;
        }
        let alloc_end = alloc_start + size;
        if alloc_end > self.heap_end {
            0
        } else {
            proof {
                crate::memory::lemma_align_up_mod(self.next, align);
            }
            self.next = alloc_end;
            self.allocations = self.allocations + 1;
            alloc_start
        }
    }

    /// Deallocate: a no-op for a bump allocator; memory comes back only
    /// through `reset`.
    pub fn deallocate(&mut self, ptr: usize, size: usize, align: usize)
        ensures
            *final(self) == *old(self),
    {
    }

    /// Get a snapshot of the heap's usage.
    pub fn stats(&self) -> (r: HeapStats)
        requires
            self.wf(),
        ensures
            r.heap_start == self.spec_start(),
            r.heap_size == self.spec_end() - self.spec_start(),
            r.used == self.spec_next() - self.spec_start(),
            r.free == self.spec_end() - self.spec_next(),
    {
        HeapStats {
            heap_start: self.heap_start,
            heap_size: self.heap_end - self.heap_start,
            used: self.next - self.heap_start,
            free: self.heap_end - self.next,
        }
    }

    /// Rewind the cursor to the start of the region, reclaiming
    /// everything, and zero the allocation counter.
    pub fn reset(&mut self)
        ensures
            final(self).spec_start() == old(self).spec_start(),
            final(self).spec_end() == old(self).spec_end(),
            final(self).spec_next() == old(self).spec_start(),
            final(self).spec_allocations() == 0,
            old(self).wf() ==> final(self).wf(),
    {
        self.next = self.heap_start;
        self.allocations = 0;
    }

    /// Get the number of allocations served since the last reset.
    pub fn allocation_count(&self) -> (r: usize)
        ensures
            r == self.spec_allocations(),
    {
        self.allocations
    }
}

} // verus!
