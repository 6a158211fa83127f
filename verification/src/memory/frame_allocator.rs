//! Physical frame allocator: manages 4 KiB frames of one physical region
//! with a bitmap, allocating single frames or consecutive runs and keeping
//! a running count of what is handed out.

use crate::memory::bitmap::Bitmap;
use crate::memory::{align_down_spec, lemma_frame_size_pow2, PhysicalAddress, FRAME_SIZE};
use vstd::prelude::*;

verus! {

/// Physical frame allocator over one contiguous region starting at
/// `start_address`, backed by one `Bitmap` with one bit per frame.
pub struct FrameAllocator {
    bitmap: Bitmap,
    start_address: PhysicalAddress,
    total_frames: usize,
    allocated_frames: usize,
}

impl FrameAllocator {
    /// The backing bitmap.
    pub closed spec fn spec_bitmap(self) -> Bitmap {
        self.bitmap
    }

    /// Base address of the managed region.
    pub closed spec fn spec_start(self) -> usize {
        self.start_address.0
    }

    /// Number of frames managed.
    pub closed spec fn spec_total(self) -> usize {
        self.total_frames
    }

    /// The running counter of allocated frames.
    pub closed spec fn spec_allocated(self) -> usize {
        self.allocated_frames
    }

    /// State of frame `i`: true when allocated.
    pub open spec fn bit(self, i: int) -> bool {
        self.spec_bitmap().bit(i)
    }

    /// The allocator's invariant: the bitmap covers all frames, the counter
    /// equals the number of set bits, and every frame address fits in a word.
    pub open spec fn wf(self) -> bool {
        &&& self.spec_bitmap().wf()
        &&& self.spec_bitmap().spec_size() == self.spec_total()
        &&& self.spec_allocated() == self.spec_bitmap().num_set(self.spec_total() as int)
        &&& self.spec_start() + self.spec_total() * FRAME_SIZE <= usize::MAX
    }

    /// Physical address of frame `i`.
    pub open spec fn frame_address(self, i: int) -> int {
        self.spec_start() + i * FRAME_SIZE
    }

    /// Frame index that `addr` falls in; negative or at least
    /// `spec_total()` when `addr` lies outside the managed region.
    pub open spec fn frame_index_of(self, addr: PhysicalAddress) -> int {
        (align_down_spec(addr.0, FRAME_SIZE) - self.spec_start()) / (FRAME_SIZE as int)
    }

    /// `i` is the least free frame index.
    pub open spec fn is_first_clear(self, i: int) -> bool {
        &&& 0 <= i < self.spec_total()
        &&& !self.bit(i)
        &&& forall|j: int| 0 <= j < i ==> self.bit(j)
    }

    /// The state change of a successful single-frame allocation: frame `i`
    /// was the first free frame, it is now marked, and everything else is
    /// untouched.
    pub open spec fn allocated_one_at(pre: Self, post: Self, i: int) -> bool {
        &&& pre.is_first_clear(i)
        &&& post.bit(i)
        &&& forall|j: int|
            #![trigger post.bit(j)]
            0 <= j < pre.spec_total() && j != i ==> post.bit(j) == pre.bit(j)
        &&& post.spec_total() == pre.spec_total()
        &&& post.spec_start() == pre.spec_start()
        &&& post.spec_allocated() == pre.spec_allocated() + 1
    }

    /// How `allocate_frame` relates the state before the call, the state
    /// after it, and its result.
    pub open spec fn allocate_rel(pre: Self, post: Self, r: Option<PhysicalAddress>) -> bool {
        match r {
            Option::None => post == pre && forall|j: int|
                0 <= j < pre.spec_total() ==> pre.bit(j),
            Option::Some(a) => exists|i: int|
                #[trigger] Self::allocated_one_at(pre, post, i) && a.0 == pre.frame_address(i),
        }
    }

    /// The state change of a successful run allocation: `s` is the first
    /// start of `count` consecutive free frames, and the run is now marked.
    pub open spec fn allocated_run_at(pre: Self, post: Self, s: int, count: int) -> bool {
        &&& pre.spec_bitmap().window_clear(s, count)
        &&& forall|t: int| 0 <= t < s ==> !pre.spec_bitmap().window_clear(t, count)
        &&& forall|j: int|
            #![trigger post.bit(j)]
            0 <= j < pre.spec_total() ==> post.bit(j) == (pre.bit(j) || s <= j < s + count)
        &&& post.spec_total() == pre.spec_total()
        &&& post.spec_start() == pre.spec_start()
        &&& post.spec_allocated() == pre.spec_allocated() + count
    }

    /// How `allocate_frames` relates states and result.
    pub open spec fn allocate_run_rel(
        pre: Self,
        post: Self,
        count: usize,
        r: Option<PhysicalAddress>,
    ) -> bool {
        match r {
            Option::None => post == pre && (count == 0 || forall|t: int|
                !pre.spec_bitmap().window_clear(t, count as int)),
            Option::Some(a) => count > 0 && exists|s: int|
                #[trigger] Self::allocated_run_at(pre, post, s, count as int) && a.0
                    == pre.frame_address(s),
        }
    }

    /// How `deallocate_frame` relates states: when `addr` falls on an
    /// allocated frame of the region its bit is cleared and the counter
    /// drops by one; anything else (out of range, double free) is a no-op.
    pub open spec fn dealloc_rel(pre: Self, post: Self, addr: PhysicalAddress) -> bool {
        let i = pre.frame_index_of(addr);
        if 0 <= i < pre.spec_total() && pre.bit(i) {
            &&& !post.bit(i)
            &&& forall|j: int|
            #![trigger post.bit(j)]
            0 <= j < pre.spec_total() && j != i ==> post.bit(j) == pre.bit(j)
            &&& post.spec_total() == pre.spec_total()
            &&& post.spec_start() == pre.spec_start()
            &&& post.spec_allocated() == pre.spec_allocated() - 1
        } else {
            post == pre
        }
    }

    /// Create a new frame allocator for the region of `memory_size` bytes
    /// at `start_addr`, with all frames free.
    pub fn new(start_addr: PhysicalAddress, memory_size: usize, bitmap_buffer: Vec<u8>) -> (r:
        Self)
        requires
            start_addr.0 + memory_size <= usize::MAX,
            memory_size as int / FRAME_SIZE as int <= bitmap_buffer@.len() * 8,
        ensures
            r.wf(),
            r.spec_start() == start_addr.0,
            r.spec_total() == memory_size as int / FRAME_SIZE as int,
            r.spec_allocated() == 0,
            forall|j: int| 0 <= j < r.spec_total() ==> !r.bit(j),
    {
        let total_frames = memory_size / FRAME_SIZE;
        let bitmap = Bitmap::new(bitmap_buffer, total_frames);
        let r = FrameAllocator { bitmap, start_address: start_addr, total_frames, allocated_frames: 0 };
        proof {
            r.spec_bitmap().lemma_num_set_all_clear(total_frames as int);
            assert(total_frames * FRAME_SIZE <= memory_size) by (nonlinear_arith)
                requires
                    total_frames == memory_size as int / FRAME_SIZE as int,
                    memory_size >= 0,
            {
                vstd::arithmetic::div_mod::lemma_fundamental_div_mod(
                    memory_size as int,
                    FRAME_SIZE as int,
                );
                vstd::arithmetic::div_mod::lemma_mod_bound(memory_size as int, FRAME_SIZE as int);
            }
        }
        r
    }

    /// Every frame address of the region fits in a word.
    proof fn lemma_address_fits(self, i: int)
        requires
            self.wf(),
            0 <= i < self.spec_total(),
        ensures
            self.spec_start() + i * FRAME_SIZE + FRAME_SIZE <= usize::MAX,
            0 <= i * FRAME_SIZE,
    {
        vstd::arithmetic::mul::lemma_mul_inequality(i + 1, self.spec_total() as int, FRAME_SIZE as int);
        vstd::arithmetic::mul::lemma_mul_is_distributive_add_other_way(
            FRAME_SIZE as int,
            i,
            1,
        );
        vstd::arithmetic::mul::lemma_mul_nonnegative(i, FRAME_SIZE as int);
    }

    /// Allocate a single frame: mark the first free frame and return its
    /// physical address, or `None` when every frame is allocated.
    #[verifier::rlimit(100)]
    pub fn allocate_frame(&mut self) -> (r: Option<PhysicalAddress>)
        requires
            old(self).wf(),
        ensures
            final(self).wf(),
            Self::allocate_rel(*old(self), *final(self), r),
            (r is None) <==> (forall|j: int|
                0 <= j < old(self).spec_total() ==> old(self).bit(j)),
    {
        match self.bitmap.find_first_clear() {
            Option::Some(frame_idx) => {
                self.bitmap.set(frame_idx);
                proof {
                    old(self).spec_bitmap().lemma_num_set_update(
                        self.bitmap,
                        frame_idx as int,
                        self.total_frames as int,
                    );
                    self.bitmap.lemma_counts_partition(self.total_frames as int);
                    old(self).lemma_address_fits(frame_idx as int);
                }
                self.allocated_frames = self.allocated_frames + 1;
                let addr = self.start_address.as_usize() + frame_idx * FRAME_SIZE;
                let a = PhysicalAddress::new(addr);
                proof {
                    assert(Self::allocated_one_at(*old(self), *self, frame_idx as int));
                    assert(a.0 == old(self).frame_address(frame_idx as int));
                    assert(Self::allocate_rel(*old(self), *self, Option::Some(a)));
                }
                Option::Some(a)
            },
            Option::None => {
                proof {
                    assert(Self::allocate_rel(*old(self), *self, Option::None::<PhysicalAddress>));
                }
                Option::None
            },
        }
    }

    /// Allocate `count` consecutive frames: mark the first free run and
    /// return the address of its first frame. `count == 0` and exhaustion
    /// both return `None`, and a failed request changes nothing.
    #[verifier::rlimit(100)]
    pub fn allocate_frames(&mut self, count: usize) -> (r: Option<PhysicalAddress>)
        requires
            old(self).wf(),
        ensures
            final(self).wf(),
            Self::allocate_run_rel(*old(self), *final(self), count, r),
    {
        if count == 0 {
            return Option::None;
        }
        match self.bitmap.find_consecutive_clear(count) {
            Option::Some(start_idx) => {
                let ghost pre = *old(self);
                let mut i: usize = 0;
                while i < count
                    invariant
                        pre.wf(),
                        self.total_frames == pre.spec_total(),
                        self.start_address == pre.start_address,
                        self.allocated_frames == pre.spec_allocated(),
                        i <= count,
                        start_idx + count <= pre.spec_total(),
                        self.bitmap.wf(),
                        self.bitmap.spec_size() == pre.spec_total(),
                        forall|j: int|
                            #![trigger self.bitmap.bit(j)]
                            0 <= j < pre.spec_total() ==> self.bitmap.bit(j) == (pre.bit(j)
                                || start_idx <= j < start_idx + i),
                        self.bitmap.num_set(pre.spec_total() as int) == pre.spec_bitmap().num_set(
                            pre.spec_total() as int,
                        ) + i,
                        pre.spec_bitmap().window_clear(start_idx as int, count as int),
                    decreases count - i,
                {
                    proof {
                        assert(start_idx <= start_idx + i < start_idx + count);
                        assert(!pre.spec_bitmap().bit(start_idx + i));
                        assert(!self.bitmap.bit(start_idx + i));
                    }
                    let ghost before = self.bitmap;
                    self.bitmap.set(start_idx + i);
                    proof {
                        assert(!before.bit(start_idx + i));
                        before.lemma_num_set_update(
                            self.bitmap,
                            start_idx + i,
                            pre.spec_total() as int,
                        );
                        assert(self.bitmap.num_set(pre.spec_total() as int) == before.num_set(
                            pre.spec_total() as int,
                        ) + 1);
                        assert forall|j: int|
                            0 <= j < pre.spec_total() implies self.bitmap.bit(j) == (pre.bit(j)
                            || start_idx <= j < start_idx + i + 1) by {
                            if j != start_idx + i {
                                assert(self.bitmap.bit(j) == before.bit(j));
                            }
                        }
                    }
                    i = i + 1;
                }
                proof {
                    self.bitmap.lemma_counts_partition(self.total_frames as int);
                    pre.spec_bitmap().lemma_counts_partition(self.total_frames as int);
                    pre.lemma_address_fits(start_idx as int);
                }
                self.allocated_frames = self.allocated_frames + count;
                let addr = self.start_address.as_usize() + start_idx * FRAME_SIZE;
                let a = PhysicalAddress::new(addr);
                proof {
                    assert(Self::allocated_run_at(pre, *self, start_idx as int, count as int));
                    assert(a.0 == pre.frame_address(start_idx as int));
                    assert(Self::allocate_run_rel(pre, *self, count, Option::Some(a)));
                }
                Option::Some(a)
            },
            Option::None => {
                proof {
                    assert(Self::allocate_run_rel(
                        *old(self),
                        *self,
                        count,
                        Option::None::<PhysicalAddress>,
                    ));
                }
                Option::None
            },
        }
    }

    /// Compute the index of the frame containing `addr`, or `None` when the
    /// (frame-aligned) address lies below the region's start.
    fn frame_index(&self, addr: PhysicalAddress) -> (r: Option<usize>)
        requires
            self.wf(),
        ensures
            match r {
                Option::Some(i) => i == self.frame_index_of(addr),
                Option::None => self.frame_index_of(addr) < 0,
            },
    {
        proof {
            lemma_frame_size_pow2();
        }
        let aligned = addr.align_down(FRAME_SIZE);
        if aligned.as_usize() < self.start_address.as_usize() {
            proof {
                let x = align_down_spec(addr.0, FRAME_SIZE) - self.spec_start();
                let d = FRAME_SIZE as int;
                vstd::arithmetic::div_mod::lemma_fundamental_div_mod(x, d);
                vstd::arithmetic::div_mod::lemma_mod_bound(x, d);
                assert(x / d < 0) by (nonlinear_arith)
                    requires
                        x == d * (x / d) + x % d,
                        0 <= x % d < d,
                        x < 0,
                        d > 0,
                ;
            }
            return Option::None;
        }
        Option::Some((aligned.as_usize() - self.start_address.as_usize()) / FRAME_SIZE)
    }

    /// Deallocate the frame containing `addr`: clears its bit only when the
    /// index is in range and the frame is allocated; a double free or an
    /// out-of-range address is a silent no-op.
    pub fn deallocate_frame(&mut self, addr: PhysicalAddress)
        requires
            old(self).wf(),
        ensures
            final(self).wf(),
            Self::dealloc_rel(*old(self), *final(self), addr),
    {
        let frame_idx = match self.frame_index(addr) {
            Option::Some(i) => i,
            Option::None => {
                return ;
            },
        };
        if frame_idx < self.total_frames && self.bitmap.is_set(frame_idx) {
            self.bitmap.clear(frame_idx);
            proof {
                old(self).spec_bitmap().lemma_num_set_update(
                    self.bitmap,
                    frame_idx as int,
                    self.total_frames as int,
                );
                self.bitmap.lemma_counts_partition(self.total_frames as int);
            }
            self.allocated_frames = self.allocated_frames - 1;
        }
    }

    /// Deallocate `count` consecutive frames starting at the frame
    /// containing `addr`; each index is handled as in `deallocate_frame`.
    #[verifier::rlimit(100)]
    pub fn deallocate_frames(&mut self, addr: PhysicalAddress, count: usize)
        requires
            old(self).wf(),
        ensures
            final(self).wf(),
            final(self).spec_total() == old(self).spec_total(),
            final(self).spec_start() == old(self).spec_start(),
            ({
                let s = old(self).frame_index_of(addr);
                if s < 0 {
                    *final(self) == *old(self)
                } else {
                    forall|j: int|
                        #![trigger final(self).bit(j)]
                        0 <= j < old(self).spec_total() ==> final(self).bit(j) == (old(self).bit(j)
                            && !(s <= j < s + count))
                }
            }),
    {
        let start_idx = match self.frame_index(addr) {
            Option::Some(i) => i,
            Option::None => {
                return ;
            },
        };
        let ghost pre = *old(self);
        let mut i: usize = 0;
        while i < count && start_idx < self.total_frames && i < self.total_frames - start_idx
            invariant
                pre.wf(),
                self.total_frames == pre.spec_total(),
                self.start_address == pre.start_address,
                i <= count,
                self.bitmap.wf(),
                self.bitmap.spec_size() == pre.spec_total(),
                self.allocated_frames == self.bitmap.num_set(pre.spec_total() as int),
                forall|j: int|
                    #![trigger self.bitmap.bit(j)]
                    0 <= j < pre.spec_total() ==> self.bitmap.bit(j) == (pre.bit(j) && !(start_idx
                        <= j < start_idx + i)),
            decreases count - i,
        {
            let idx = start_idx + i;
            if self.bitmap.is_set(idx) {
                let ghost before = self.bitmap;
                self.bitmap.clear(idx);
                proof {
                    before.lemma_num_set_update(self.bitmap, idx as int, pre.spec_total() as int);
                    self.bitmap.lemma_counts_partition(pre.spec_total() as int);
                    assert forall|j: int|
                        0 <= j < pre.spec_total() implies self.bitmap.bit(j) == (pre.bit(j) && !(
                        start_idx <= j < start_idx + i + 1)) by {
                        if j != idx {
                            assert(self.bitmap.bit(j) == before.bit(j));
                        }
                    }
                }
                self.allocated_frames = self.allocated_frames - 1;
            } else {
                proof {
                    assert forall|j: int|
                        0 <= j < pre.spec_total() implies self.bitmap.bit(j) == (pre.bit(j) && !(
                        start_idx <= j < start_idx + i + 1)) by {
                        if j == idx {
                            assert(!self.bitmap.bit(j));
                        }
                    }
                }
            }
            i = i + 1;
        }
        proof {
            assert forall|j: int| 0 <= j < pre.spec_total() implies self.bitmap.bit(j) == (pre.bit(
                j,
            ) && !(start_idx <= j < start_idx + count)) by {
                if start_idx <= j < start_idx + count && j >= start_idx + i {
                    assert(i != count);
                    assert(start_idx < pre.spec_total());
                    assert(i >= pre.spec_total() - start_idx);
                    assert(false);
                }
            }
        }
    }

    /// Get the number of free frames.
    pub fn free_frames(&self) -> (r: usize)
        requires
            self.wf(),
        ensures
            r == self.spec_total() - self.spec_allocated(),
    {
        proof {
            self.spec_bitmap().lemma_counts_partition(self.total_frames as int);
        }
        self.total_frames - self.allocated_frames
    }

    /// Get the number of allocated frames.
    pub fn allocated_frames(&self) -> (r: usize)
        ensures
            r == self.spec_allocated(),
    {
        self.allocated_frames
    }

    /// Get the total number of frames managed.
    pub fn total_frames(&self) -> (r: usize)
        ensures
            r == self.spec_total(),
    {
        self.total_frames
    }

    /// Get the size of the managed region in bytes.
    pub fn total_memory(&self) -> (r: usize)
        requires
            self.wf(),
        ensures
            r == self.spec_total() * FRAME_SIZE,
    {
        proof {
            vstd::arithmetic::mul::lemma_mul_nonnegative(self.spec_total() as int, FRAME_SIZE as int);
        }
        self.total_frames * FRAME_SIZE
    }

    /// Get the free memory in bytes.
    pub fn free_memory(&self) -> (r: usize)
        requires
            self.wf(),
        ensures
            r == (self.spec_total() - self.spec_allocated()) * FRAME_SIZE,
    {
        let free = self.free_frames();
        proof {
            vstd::arithmetic::mul::lemma_mul_inequality(
                free as int,
                self.spec_total() as int,
                FRAME_SIZE as int,
            );
            vstd::arithmetic::mul::lemma_mul_nonnegative(free as int, FRAME_SIZE as int);
        }
        free * FRAME_SIZE
    }

    /// Get the allocated memory in bytes.
    pub fn allocated_memory(&self) -> (r: usize)
        requires
            self.wf(),
        ensures
            r == self.spec_allocated() * FRAME_SIZE,
    {
        proof {
            self.spec_bitmap().lemma_counts_partition(self.total_frames as int);
            vstd::arithmetic::mul::lemma_mul_inequality(
                self.spec_allocated() as int,
                self.spec_total() as int,
                FRAME_SIZE as int,
            );
            vstd::arithmetic::mul::lemma_mul_nonnegative(self.spec_allocated() as int, FRAME_SIZE as int);
        }
        self.allocated_frames * FRAME_SIZE
    }

    /// Get the memory usage as a percentage (0 to 100); zero when the
    /// allocator manages no frames.
    pub fn usage_percent(&self) -> (r: usize)
        requires
            self.wf(),
        ensures
            self.spec_total() == 0 ==> r == 0,
            self.spec_total() > 0 ==> r == self.spec_allocated() * 100 / self.spec_total() as int,
    {
        if self.total_frames == 0 {
            return 0;
        }
        proof {
            self.spec_bitmap().lemma_counts_partition(self.total_frames as int);
            vstd::arithmetic::mul::lemma_mul_inequality(
                self.spec_allocated() as int,
                self.spec_total() as int,
                100,
            );
            vstd::arithmetic::mul::lemma_mul_inequality(self.spec_total() as int, self.spec_total() as int * FRAME_SIZE, 1);
            assert(self.spec_total() * 100 <= self.spec_total() * FRAME_SIZE) by (nonlinear_arith)
                requires
                    self.spec_total() >= 0,
            ;
            vstd::arithmetic::mul::lemma_mul_nonnegative(self.spec_allocated() as int, 100);
        }
        (self.allocated_frames * 100) / self.total_frames
    }

    /// Check whether the frame containing `addr` is allocated.
    pub fn is_allocated(&self, addr: PhysicalAddress) -> (r: bool)
        requires
            self.wf(),
        ensures
            r == {
                let i = self.frame_index_of(addr);
                0 <= i < self.spec_total() && self.bit(i)
            },
    {
        match self.frame_index(addr) {
            Option::Some(i) => i < self.total_frames && self.bitmap.is_set(i),
            Option::None => false,
        }
    }

    /// A freed frame is handed out again: after a deallocation clears
    /// frame `i` and no earlier frame is free, the next allocation
    /// returns exactly that frame's address.
    pub proof fn lemma_freed_frame_reused(
        pre: Self,
        mid: Self,
        post: Self,
        addr: PhysicalAddress,
        r: Option<PhysicalAddress>,
    )
        requires
            Self::dealloc_rel(pre, mid, addr),
            0 <= pre.frame_index_of(addr) < pre.spec_total(),
            pre.bit(pre.frame_index_of(addr)),
            forall|j: int| 0 <= j < pre.frame_index_of(addr) ==> mid.bit(j),
            Self::allocate_rel(mid, post, r),
        ensures
            r is Some,
            (r->0).0 == mid.frame_address(pre.frame_index_of(addr)),
    {
        let i = pre.frame_index_of(addr);
        assert(!mid.bit(i));
        match r {
            Option::None => {
                assert(mid.bit(i));
            },
            Option::Some(a) => {
                let k = choose|k: int|
                    #[trigger] Self::allocated_one_at(mid, post, k) && a.0 == mid.frame_address(
                        k,
                    );
                if k < i {
                    assert(mid.bit(k));
                }
                if k > i {
                    assert(mid.bit(i));
                }
                assert(k == i);
            },
        }
    }

    /// Two allocations with no deallocation in between never return the
    /// same address: the first allocation marks the frame it returns, so
    /// the second one picks a different frame.
    pub proof fn lemma_allocate_twice_distinct(
        pre: Self,
        mid: Self,
        post: Self,
        a1: PhysicalAddress,
        a2: PhysicalAddress,
    )
        requires
            Self::allocate_rel(pre, mid, Option::Some(a1)),
            Self::allocate_rel(mid, post, Option::Some(a2)),
        ensures
            a1 != a2,
    {
        let i1 = choose|i: int|
            #[trigger] Self::allocated_one_at(pre, mid, i) && a1.0 == pre.frame_address(i);
        let i2 = choose|i: int|
            #[trigger] Self::allocated_one_at(mid, post, i) && a2.0 == mid.frame_address(i);
        assert(mid.bit(i1));
        assert(!mid.bit(i2));
        if i1 < i2 {
            vstd::arithmetic::mul::lemma_mul_strict_inequality(i1, i2, FRAME_SIZE as int);
        } else {
            vstd::arithmetic::mul::lemma_mul_strict_inequality(i2, i1, FRAME_SIZE as int);
        }
    }
}

} // verus!
