//! Address-space bookkeeping: typed physical and virtual addresses,
//! power-of-two alignment arithmetic, and the bit-field decomposition a
//! four-level table walk reads out of a virtual address.

use vstd::prelude::*;

pub mod bitmap;
pub mod frame_allocator;
pub mod page_table;
pub mod paging;

verus! {

/// Size of one page of virtual address space, in bytes.
pub const PAGE_SIZE: usize = 4096;

/// Size of one frame of physical memory, in bytes.
pub const FRAME_SIZE: usize = 4096;

/// Whether `n` is a power of two (and hence a usable alignment).
pub open spec fn is_pow2(n: usize) -> bool {
    n != 0 && n & ((n - 1) as usize) == 0
}

/// Largest multiple of `n` that is at most `x`.
pub open spec fn align_down_spec(x: usize, n: usize) -> int
    recommends
        n > 0,
{
    x - (x % n)
}

/// Smallest multiple of `n` that is at least `x`.
pub open spec fn align_up_spec(x: usize, n: usize) -> int
    recommends
        n > 0,
{
    if x % n == 0 {
        x as int
    } else {
        x - (x % n) + n
    }
}

/// A bit-level power of two has an exponent: `n == pow2(k)` with `k` below
/// the word width, and `n - 1` is the corresponding low-bits mask.
proof fn lemma_pow2_exponent(n: usize) -> (k: nat)
    requires
        is_pow2(n),
    ensures
        k < usize::BITS,
        n == vstd::arithmetic::power2::pow2(k),
        (n - 1) as usize == vstd::bits::low_bits_mask(k) as usize,
    decreases n,
{
    vstd::arithmetic::power2::lemma2_to64();
    vstd::layout::unsigned_int_max_values();
    assert(usize::BITS >= 32) by {
        if usize::BITS < 32 {
            vstd::arithmetic::power2::lemma_pow2_strictly_increases(
                usize::BITS as nat,
                32,
            );
        }
    }
    if n == 1 {
        0
    } else {
        let m = (n - 1) as usize;
        let h = n / 2;
        let hm = (h - 1) as usize;
        assert(n % 2 == 0 && h != 0 && (h & hm) == 0 && h < n) by (bit_vector)
            requires
                n & m == 0,
                m == n - 1,
                n != 0,
                n != 1,
                h == n / 2,
                hm == h - 1,
        ;
        let k1 = lemma_pow2_exponent(h);
        let k = k1 + 1;
        vstd::arithmetic::power2::lemma_pow2_unfold(k);
        assert(n == vstd::arithmetic::power2::pow2(k));
        if k >= usize::BITS {
            if k > usize::BITS {
                vstd::arithmetic::power2::lemma_pow2_strictly_increases(
                    usize::BITS as nat,
                    k,
                );
            }
            assert(false);
        }
        k
    }
}

/// For a power-of-two alignment `n` with mask `m == n - 1`, the mask trick
/// `x & !m` computes `align_down_spec(x, n)`.
proof fn lemma_align_down_mask(x: usize, n: usize, m: usize)
    requires
        is_pow2(n),
        m == n - 1,
    ensures
        x & !m == x - x % n,
{
    let k = lemma_pow2_exponent(n);
    vstd::bits::lemma_usize_low_bits_mask_is_mod(x, k);
    assert((x & !m) + (x & m) == x) by (bit_vector);
}

/// Aligning up is the same as aligning the inclusive end `x + n - 1` down.
proof fn lemma_align_up_via_down(x: usize, n: usize)
    requires
        n > 0,
        x + n - 1 <= usize::MAX,
    ensures
        align_up_spec(x, n) == align_down_spec((x + n - 1) as usize, n),
{
    let ni = n as int;
    let xi = x as int;
    let y = (x + n - 1) as usize;
    let r = xi % ni;
    vstd::arithmetic::div_mod::lemma_fundamental_div_mod(xi, ni);
    vstd::arithmetic::div_mod::lemma_mod_bound(xi, ni);
    let q = xi / ni;
    if r == 0 {
        assert(y as int == q * ni + (ni - 1)) by (nonlinear_arith)
            requires
                xi == ni * q + r,
                r == 0,
                y == xi + ni - 1,
        ;
        vstd::arithmetic::div_mod::lemma_fundamental_div_mod_converse_mod(
            y as int,
            ni,
            q,
            ni - 1,
        );
    } else {
        assert(y as int == (q + 1) * ni + (r - 1)) by (nonlinear_arith)
            requires
                xi == ni * q + r,
                y == xi + ni - 1,
        ;
        vstd::arithmetic::div_mod::lemma_fundamental_div_mod_converse_mod(
            y as int,
            ni,
            q + 1,
            r - 1,
        );
    }
}

/// The frame and page sizes are powers of two.
pub proof fn lemma_frame_size_pow2()
    ensures
        is_pow2(FRAME_SIZE),
        is_pow2(PAGE_SIZE),
{
    assert(4096usize != 0 && 4096usize & ((4096usize - 1) as usize) == 0) by (bit_vector);
}

/// Typed wrapper around a raw physical memory address.
#[derive(Debug, Clone, Copy, PartialEq, Eq, Structural)]
pub struct PhysicalAddress(pub usize);

impl PhysicalAddress {
    /// Create a new physical address.
    pub fn new(addr: usize) -> (r: Self)
        ensures
            r.0 == addr,
    {
        PhysicalAddress(addr)
    }

    /// Get the raw address value.
    pub fn as_usize(&self) -> (r: usize)
        ensures
            r == self.0,
    {
        self.0
    }

    /// Align the address down to the nearest `align` boundary.
    pub fn align_down(&self, align: usize) -> (r: Self)
        requires
            is_pow2(align),
        ensures
            r.0 == align_down_spec(self.0, align),
    {
        proof {
            lemma_align_down_mask(self.0, align, (align - 1) as usize);
        }
        PhysicalAddress(self.0 & !(align - 1))
    }

    /// Align the address up to the nearest `align` boundary.
    pub fn align_up(&self, align: usize) -> (r: Self)
        requires
            is_pow2(align),
            self.0 + align - 1 <= usize::MAX,
        ensures
            r.0 == align_up_spec(self.0, align),
    {
        proof {
            lemma_align_down_mask((self.0 + align - 1) as usize, align, (align - 1) as usize);
            lemma_align_up_via_down(self.0, align);
        }
        PhysicalAddress((self.0 + (align - 1)) & !(align - 1))
    }

    /// Check whether the address is aligned to an `align` boundary.
    pub fn is_aligned(&self, align: usize) -> (r: bool)
        requires
            align > 0,
        ensures
            r == (self.0 % align == 0),
    {
        self.0 % align == 0
    }

    /// Add an offset to the address.
    pub fn offset(&self, offset: usize) -> (r: Self)
        requires
            self.0 + offset <= usize::MAX,
        ensures
            r.0 == self.0 + offset,
    {
        PhysicalAddress(self.0 + offset)
    }
}

/// Index into the top-level table, taken from bits 39..47 of an address.
pub open spec fn pml4_index_spec(a: usize) -> usize {
    (((a as u64) >> 39) & 0x1FF) as usize
}

/// Index into the second-level table, taken from bits 30..38.
pub open spec fn pdpt_index_spec(a: usize) -> usize {
    (((a as u64) >> 30) & 0x1FF) as usize
}

/// Index into the third-level table, taken from bits 21..29.
pub open spec fn pd_index_spec(a: usize) -> usize {
    (((a as u64) >> 21) & 0x1FF) as usize
}

/// Index into the leaf table, taken from bits 12..20.
pub open spec fn pt_index_spec(a: usize) -> usize {
    (((a as u64) >> 12) & 0x1FF) as usize
}

/// Byte offset within the page, bits 0..11.
pub open spec fn page_offset_spec(a: usize) -> usize {
    ((a as u64) & 0xFFF) as usize
}

/// Every table index extracted from an address is a valid index into a
/// 512-entry table, and the page offset is below the page size.
pub proof fn lemma_index_bounds(a: usize)
    by (bit_vector)
    ensures
        pml4_index_spec(a) < 512,
        pdpt_index_spec(a) < 512,
        pd_index_spec(a) < 512,
        pt_index_spec(a) < 512,
        page_offset_spec(a) < 4096,
{
}

/// Adding an in-page offset `k` to a page-aligned address `v` (giving
/// `w == v + k`) leaves all four table indices unchanged and makes `k` the
/// page offset.
pub proof fn lemma_offset_within_page(v: usize, k: usize, w: usize)
    by (bit_vector)
    requires
        v % 4096 == 0,
        k < 4096,
        w == v + k,
    ensures
        pml4_index_spec(w) == pml4_index_spec(v),
        pdpt_index_spec(w) == pdpt_index_spec(v),
        pd_index_spec(w) == pd_index_spec(v),
        pt_index_spec(w) == pt_index_spec(v),
        page_offset_spec(w) == k,
        page_offset_spec(v) == 0,
{
}

/// Typed wrapper around a raw virtual address, with projections for the
/// four table indices and the page offset.
#[derive(Debug, Clone, Copy, PartialEq, Eq, Structural)]
pub struct VirtualAddress(pub usize);

impl VirtualAddress {
    /// Create a new virtual address.
    pub fn new(addr: usize) -> (r: Self)
        ensures
            r.0 == addr,
    {
        VirtualAddress(addr)
    }

    /// Get the raw address value.
    pub fn as_usize(&self) -> (r: usize)
        ensures
            r == self.0,
    {
        self.0
    }

    /// Extract the top-level table index (bits 39..47).
    pub fn pml4_index(&self) -> (r: usize)
        ensures
            r == pml4_index_spec(self.0),
            r < 512,
    {
        proof {
            lemma_index_bounds(self.0);
        }
        (((self.0 as u64) >> 39) & 0x1FF) as usize
    }

    /// Extract the second-level table index (bits 30..38).
    pub fn pdpt_index(&self) -> (r: usize)
        ensures
            r == pdpt_index_spec(self.0),
            r < 512,
    {
        proof {
            lemma_index_bounds(self.0);
        }
        (((self.0 as u64) >> 30) & 0x1FF) as usize
    }

    /// Extract the third-level table index (bits 21..29).
    pub fn pd_index(&self) -> (r: usize)
        ensures
            r == pd_index_spec(self.0),
            r < 512,
    {
        proof {
            lemma_index_bounds(self.0);
        }
        (((self.0 as u64) >> 21) & 0x1FF) as usize
    }

    /// Extract the leaf table index (bits 12..20).
    pub fn pt_index(&self) -> (r: usize)
        ensures
            r == pt_index_spec(self.0),
            r < 512,
    {
        proof {
            lemma_index_bounds(self.0);
        }
        (((self.0 as u64) >> 12) & 0x1FF) as usize
    }

    /// Extract the byte offset within the page (bits 0..11).
    pub fn page_offset(&self) -> (r: usize)
        ensures
            r == page_offset_spec(self.0),
            r < 4096,
    {
        proof {
            lemma_index_bounds(self.0);
        }
        ((self.0 as u64) & 0xFFF) as usize
    }

    /// Check whether the address is aligned to an `align` boundary.
    pub fn is_aligned(&self, align: usize) -> (r: bool)
        requires
            align > 0,
        ensures
            r == (self.0 % align == 0),
    {
        self.0 % align == 0
    }

    /// Align the address down to the nearest `align` boundary.
    pub fn align_down(&self, align: usize) -> (r: Self)
        requires
            is_pow2(align),
        ensures
            r.0 == align_down_spec(self.0, align),
    {
        proof {
            lemma_align_down_mask(self.0, align, (align - 1) as usize);
        }
        VirtualAddress(self.0 & !(align - 1))
    }

    /// Align the address up to the nearest `align` boundary.
    pub fn align_up(&self, align: usize) -> (r: Self)
        requires
            is_pow2(align),
            self.0 + align - 1 <= usize::MAX,
        ensures
            r.0 == align_up_spec(self.0, align),
    {
        proof {
            lemma_align_down_mask((self.0 + align - 1) as usize, align, (align - 1) as usize);
            lemma_align_up_via_down(self.0, align);
        }
        VirtualAddress((self.0 + (align - 1)) & !(align - 1))
    }
}

/// Aligning up always lands on a multiple of `n`, at or above `x` and
/// less than one alignment unit further.
pub proof fn lemma_align_up_mod(x: usize, n: usize)
    requires
        n > 0,
    ensures
        align_up_spec(x, n) % (n as int) == 0,
        x <= align_up_spec(x, n) < x + n,
{
    let ni = n as int;
    let xi = x as int;
    vstd::arithmetic::div_mod::lemma_mod_bound(xi, ni);
    vstd::arithmetic::div_mod::lemma_fundamental_div_mod(xi, ni);
    let q = xi / ni;
    assert(xi - xi % ni == q * ni) by (nonlinear_arith)
        requires
            xi == ni * q + xi % ni,
    ;
    vstd::arithmetic::div_mod::lemma_mod_multiples_basic(q, ni);
    vstd::arithmetic::div_mod::lemma_mod_multiples_basic(q + 1, ni);
    assert((q + 1) * ni == q * ni + ni) by (nonlinear_arith);
}

/// Alignment round trip: aligning up lands on a boundary, so aligning the
/// result down moves nothing; and an address always lies between its two
/// alignments.
pub proof fn lemma_align_round_trip(x: usize, n: usize)
    requires
        is_pow2(n),
        x + n - 1 <= usize::MAX,
    ensures
        align_down_spec(align_up_spec(x, n) as usize, n) == align_up_spec(x, n),
        align_down_spec(x, n) <= x <= align_up_spec(x, n),
        align_down_spec(x, n) % (n as int) == 0,
        align_up_spec(x, n) % (n as int) == 0,
{
    let ni = n as int;
    let xi = x as int;
    vstd::arithmetic::div_mod::lemma_mod_bound(xi, ni);
    vstd::arithmetic::div_mod::lemma_fundamental_div_mod(xi, ni);
    let q = xi / ni;
    assert(xi - xi % ni == q * ni) by (nonlinear_arith)
        requires
            xi == ni * q + xi % ni,
    ;
    vstd::arithmetic::div_mod::lemma_mod_multiples_basic(q, ni);
    vstd::arithmetic::div_mod::lemma_mod_multiples_basic(q + 1, ni);
    assert((q + 1) * ni == q * ni + ni) by (nonlinear_arith);
    let r = align_up_spec(x, n);
    assert(r % ni == 0);
    let ru = r as usize;
    assert(ru == r);
    vstd::arithmetic::div_mod::lemma_mod_bound(r, ni);
    assert(align_down_spec(ru, n) == r - (ru % n));
    assert((ru as int) % ni == r % ni);
}

} // verus!
