//! First-fit free-list heap: free regions form a list, newest first, the
//! order an intrusive free list threads them in. Allocation takes the
//! first region that can hold the rounded request, and deallocation
//! pushes the freed region back at the head without merging neighbours.

use crate::memory::{align_up_spec, is_pow2};
use vstd::prelude::*;

verus! {

/// Smallest region the list keeps: a free block must be able to hold its
/// own intrusive list node of two machine words.
pub const MIN_BLOCK_SIZE: usize = 16;

/// Alignment of every region the list keeps, the node's alignment.
pub const NODE_ALIGN: usize = 8;

/// The size class a request of `size` bytes is served from: at least one
/// node, rounded up to the node alignment.
pub open spec fn request_size(size: usize) -> int {
    align_up_spec(if size < MIN_BLOCK_SIZE {
        MIN_BLOCK_SIZE
    } else {
        size
    }, NODE_ALIGN)
}

/// Where a request of `size2` bytes at alignment `align` would start
/// inside the free region `r`, or `None` when it does not fit. A
/// remainder of at least one node survives as a free block; a smaller
/// one is absorbed into the allocation.
pub open spec fn region_fit(r: (usize, usize), size2: int, align: usize) -> Option<int> {
    let astart = align_up_spec(r.0, align);
    let aend = astart + size2;
    let region_end = r.0 + r.1;
    if aend <= region_end {
        Option::Some(astart)
    } else {
        Option::None
    }
}

/// First-fit heap allocator over an explicit list of free regions, each a
/// `(start, size)` pair.
pub struct LinkedListAllocator {
    free_list: Vec<(usize, usize)>,
}

impl LinkedListAllocator {
    /// The free regions, in list order (most recently freed first).
    pub closed spec fn spec_regions(self) -> Seq<(usize, usize)> {
        self.free_list@
    }

    /// Every region is node-aligned, at least one node large, and ends
    /// within the address space.
    pub open spec fn wf(self) -> bool {
        forall|k: int|
            0 <= k < self.spec_regions().len() ==> {
                let r = #[trigger] self.spec_regions()[k];
                &&& r.0 != 0
                &&& r.0 % NODE_ALIGN == 0
                &&& r.1 >= MIN_BLOCK_SIZE
                &&& r.0 + r.1 <= usize::MAX
            }
    }

    /// Region `i` is the first region of the list that fits a request of
    /// `size2` bytes at alignment `align`.
    pub open spec fn is_first_fit(self, size2: int, align: usize, i: int) -> bool {
        &&& 0 <= i < self.spec_regions().len()
        &&& region_fit(self.spec_regions()[i], size2, align) is Some
        &&& forall|j: int| 0 <= j < i ==> region_fit(self.spec_regions()[j], size2, align) is None
    }

    /// Create a new allocator with an empty free list.
    pub fn new() -> (r: Self)
        ensures
            r.wf(),
            r.spec_regions().len() == 0,
    {
        LinkedListAllocator { free_list: Vec::new() }
    }

    /// Push the region `[addr, addr + size)` onto the head of the list.
    fn add_free_region(&mut self, addr: usize, size: usize)
        requires
            old(self).wf(),
            addr != 0,
            addr % NODE_ALIGN == 0,
            size >= MIN_BLOCK_SIZE,
            addr + size <= usize::MAX,
        ensures
            final(self).wf(),
            final(self).spec_regions() == seq![(addr, size)] + old(self).spec_regions(),
    {
        self.free_list.insert(0, (addr, size));
        proof {
            assert(self.spec_regions() =~= seq![(addr, size)] + old(self).spec_regions());
        }
    }

    /// Hand the allocator its heap region as one initial free block.
    pub fn init(&mut self, heap_start: usize, heap_size: usize)
        requires
            old(self).wf(),
            heap_start != 0,
            heap_start % NODE_ALIGN == 0,
            heap_size >= MIN_BLOCK_SIZE,
            heap_start + heap_size <= usize::MAX,
        ensures
            final(self).wf(),
            final(self).spec_regions() == seq![(heap_start, heap_size)] + old(self).spec_regions(),
    {
        self.add_free_region(heap_start, heap_size);
    }

    /// Allocate `size` bytes at alignment `align` by first fit: the first
    /// region large enough is taken out of the list; a remainder of at
    /// least one node goes back at the head, a smaller one is absorbed.
    /// Returns the aligned block start, or the invalid address 0 when no
    /// region fits.
    #[verifier::rlimit(100)]
    pub fn allocate(&mut self, size: usize, align: usize) -> (r: usize)
        requires
            old(self).wf(),
            is_pow2(align),
        ensures
            final(self).wf(),
            r != 0 ==> exists|i: int|
                {
                    &&& #[trigger] old(self).is_first_fit(request_size(size), align, i)
                    &&& r == region_fit(old(self).spec_regions()[i], request_size(size), align)->0
                    &&& {
                        let region_end = old(self).spec_regions()[i].0 + old(
                            self,
                        ).spec_regions()[i].1;
                        let excess = region_end - (r + request_size(size));
                        if excess >= MIN_BLOCK_SIZE {
                            final(self).spec_regions() == seq![
                                (((r + request_size(size)) as usize), (excess as usize)),
                            ] + old(self).spec_regions().remove(i)
                        } else {
                            final(self).spec_regions() == old(self).spec_regions().remove(i)
                        }
                    }
                },
            r == 0 ==> *final(self) == *old(self) && (size > usize::MAX - NODE_ALIGN || forall|
                i: int,
            |
                0 <= i < old(self).spec_regions().len() ==> region_fit(
                    old(self).spec_regions()[i],
                    request_size(size),
                    align,
                ) is None),
    {
        if size > usize::MAX - NODE_ALIGN {
            return 0;
        }
        let s0 = if size < MIN_BLOCK_SIZE {
            MIN_BLOCK_SIZE
        } else {
            size
        };
        let rem0 = s0 % NODE_ALIGN;
        let size2 = if rem0 == 0 {
            s0
        } else {
            s0 + (NODE_ALIGN - rem0)
        };
        proof {
            assert(size2 == request_size(size));
        }
        let n = self.free_list.len();
        let mut k: usize = 0;
        while k < n
            invariant
                self.wf(),
                *self == *old(self),
                is_pow2(align),
                n == self.spec_regions().len(),
                k <= n,
                size2 == request_size(size),
                size2 >= MIN_BLOCK_SIZE,
                forall|j: int|
                    0 <= j < k ==> region_fit(self.spec_regions()[j], size2 as int, align) is None,
            decreases n - k,
        {
            let (addr, rsize) = self.free_list[k];
            let region_end = addr + rsize;
            let rem = addr % align;
            let astart_opt: Option<usize> = if rem == 0 {
                Option::Some(addr)
            } else {
                if align - rem > usize::MAX - addr {
                    Option::None
                } else {
                    Option::Some(addr + (align - rem))
                }
            };
            let fit: Option<usize> = match astart_opt {
                Option::None => {
                    proof {
                        assert(align_up_spec(addr, align) > usize::MAX >= region_end);
                    }
                    Option::None
                },
                Option::Some(astart) => {
                    if astart > region_end || size2 > region_end - astart {
                        Option::None
                    } else {
                        Option::Some(astart)
                    }
                },
            };
            match fit {
                Option::Some(astart) => {
                    let ghost pre = *self;
                    let aend = astart + size2;
                    let excess = region_end - aend;
                    self.free_list.remove(k);
                    proof {
                        assert(self.spec_regions() =~= pre.spec_regions().remove(k as int));
                    }
                    if excess >= MIN_BLOCK_SIZE {
                        let ghost mid = *self;
                        self.free_list.insert(0, (aend, excess));
                        proof {
                            assert(self.spec_regions() =~= seq![(aend, excess)]
                                + mid.spec_regions());
                            assert(aend % NODE_ALIGN == 0) by {
                                crate::memory::lemma_align_up_mod(addr, align);
                                lemma_aligned_sum(addr, astart as int, size2 as int, align);
                            }
                        }
                    }
                    proof {
                        crate::memory::lemma_align_up_mod(addr, align);
                        assert(pre == *old(self));
                        assert(region_fit(pre.spec_regions()[k as int], size2 as int, align)
                            == Option::Some(astart as int));
                        assert(old(self).is_first_fit(size2 as int, align, k as int));
                        assert(astart >= addr > 0);
                        let i = k as int;
                        assert({
                            &&& old(self).is_first_fit(request_size(size), align, i)
                            &&& astart == region_fit(
                                old(self).spec_regions()[i],
                                request_size(size),
                                align,
                            )->0
                            &&& {
                                let region_end2 = old(self).spec_regions()[i].0 + old(
                                    self,
                                ).spec_regions()[i].1;
                                let excess2 = region_end2 - (astart + request_size(size));
                                if excess2 >= MIN_BLOCK_SIZE {
                                    self.spec_regions() == seq![
                                        (
                                            ((astart + request_size(size)) as usize),
                                            (excess2 as usize),
                                        ),
                                    ] + old(self).spec_regions().remove(i)
                                } else {
                                    self.spec_regions() == old(self).spec_regions().remove(i)
                                }
                            }
                        });
                    }
                    return astart;
                },
                Option::None => {},
            }
            k = k + 1;
        }
        0
    }

    /// Return the block at `ptr` (allocated with `size` bytes) to the free
    /// list as its new head, without merging adjacent regions.
    pub fn deallocate(&mut self, ptr: usize, size: usize)
        requires
            old(self).wf(),
            ptr != 0,
            ptr % NODE_ALIGN == 0,
            size <= usize::MAX - NODE_ALIGN,
            ptr + request_size(size) <= usize::MAX,
        ensures
            final(self).wf(),
            final(self).spec_regions() == seq![(ptr, (request_size(size) as usize))] + old(
                self,
            ).spec_regions(),
    {
        let s0 = if size < MIN_BLOCK_SIZE {
            MIN_BLOCK_SIZE
        } else {
            size
        };
        let rem0 = s0 % NODE_ALIGN;
        let size2 = if rem0 == 0 {
            s0
        } else {
            s0 + (NODE_ALIGN - rem0)
        };
        proof {
            assert(size2 == request_size(size));
        }
        self.add_free_region(ptr, size2);
    }
}

/// For a power-of-two alignment: one below 8 divides any multiple of 8,
/// one of 8 or more is itself a multiple of 8.
proof fn lemma_pow2_vs_node(addr: usize, align: usize, m: usize)
    by (bit_vector)
    requires
        m == align - 1,
        align & m == 0,
        align != 0,
        addr % 8 == 0,
    ensures
        align < 8 ==> align == 1 || align == 2 || align == 4,
        addr % 1 == 0,
        addr % 2 == 0,
        addr % 4 == 0,
        align >= 8 ==> align % 8 == 0,
{
}

/// The end of the allocated block is node-aligned: its start is either
/// the region's node-aligned start or a multiple of an alignment of at
/// least 8, and the rounded size is a multiple of the node size.
proof fn lemma_aligned_sum(addr: usize, astart: int, size2: int, align: usize)
    requires
        is_pow2(align),
        addr % NODE_ALIGN == 0,
        astart == align_up_spec(addr, align),
        size2 % (NODE_ALIGN as int) == 0,
    ensures
        (astart + size2) % (NODE_ALIGN as int) == 0,
{
    lemma_pow2_vs_node(addr, align, (align - 1) as usize);
    crate::memory::lemma_align_up_mod(addr, align);
    if align < 8 {
        assert(astart == addr);
    } else {
        let q = astart / (align as int);
        vstd::arithmetic::div_mod::lemma_fundamental_div_mod(astart, align as int);
        assert(astart == (align as int) * q);
        let t = (align as int) / 8;
        vstd::arithmetic::div_mod::lemma_fundamental_div_mod(align as int, 8);
        assert(align == 8 * t);
        assert(astart == 8 * (t * q)) by (nonlinear_arith)
            requires
                astart == (align as int) * q,
                align == 8 * t,
        ;
        vstd::arithmetic::div_mod::lemma_mod_multiples_basic(t * q, 8);
    }
    vstd::arithmetic::div_mod::lemma_add_mod_noop(astart, size2, 8);
}

} // verus!
