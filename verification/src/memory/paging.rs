//! Virtual-memory mapping: a four-level table walk over an explicit table
//! storage, creating intermediate tables on demand from the frame
//! allocator, with map, unmap and translate operations.
//!
//! Table memory is modelled by `TableStorage`, which owns every
//! translation table and hands them out by physical address; a thin
//! hardware adapter outside this library is what reads and writes real
//! table frames.

use crate::memory::frame_allocator::FrameAllocator;
use crate::memory::{
    lemma_frame_size_pow2, lemma_offset_within_page, page_offset_spec, pd_index_spec,
    pdpt_index_spec, pml4_index_spec, pt_index_spec, PhysicalAddress, VirtualAddress, FRAME_SIZE,
    PAGE_SIZE,
};
use crate::memory::page_table::{PageTable, PageTableEntry, PageTableFlags, ENTRY_ADDR_MASK, TABLE_ENTRIES};
use vstd::prelude::*;

verus! {

/// Errors that can occur during page mapping.
#[derive(Debug, Clone, Copy, PartialEq, Eq, Structural)]
pub enum MapperError {
    /// Out of physical memory frames.
    OutOfMemory,
    /// Page is already mapped.
    PageAlreadyMapped,
    /// Invalid address (not page-aligned).
    InvalidAddress,
    /// Page table creation failed.
    TableCreationFailed,
}

/// In a duplicate-free sequence the index of an element is the position
/// where it was found.
proof fn lemma_index_unique(s: Seq<usize>, k: int, a: usize)
    requires
        s.no_duplicates(),
        0 <= k < s.len(),
        s[k] == a,
    ensures
        s.contains(a),
        s.index_of(a) == k,
{
    assert(s.contains(a));
    let f = s.index_of(a);
    assert(0 <= f < s.len() && s[f] == a);
    if f != k {
        assert(s[f] != s[k]);
        assert(false);
    }
}

/// Owner of all translation-table memory, keyed by the physical address of
/// each table's frame.
pub struct TableStorage {
    addrs: Vec<usize>,
    tables: Vec<PageTable>,
}

impl TableStorage {
    /// The stored table addresses, in insertion order.
    pub closed spec fn spec_addrs(self) -> Seq<usize> {
        self.addrs@
    }

    /// The stored tables, in insertion order.
    pub closed spec fn spec_tables(self) -> Seq<PageTable> {
        self.tables@
    }

    /// Addresses are unique, both sequences line up, and every stored table
    /// is well formed.
    pub open spec fn wf(self) -> bool {
        &&& self.spec_addrs().no_duplicates()
        &&& self.spec_addrs().len() == self.spec_tables().len()
        &&& forall|k: int|
            0 <= k < self.spec_tables().len() ==> (#[trigger] self.spec_tables()[k]).wf()
    }

    /// Whether a table is stored at address `a`.
    pub open spec fn contains(self, a: usize) -> bool {
        self.spec_addrs().contains(a)
    }

    /// The table stored at address `a`.
    pub open spec fn table_of(self, a: usize) -> PageTable {
        self.spec_tables()[self.spec_addrs().index_of(a)]
    }

    /// Create an empty storage.
    pub fn new() -> (r: Self)
        ensures
            r.wf(),
            forall|a: usize| !r.contains(a),
    {
        let r = TableStorage { addrs: Vec::new(), tables: Vec::new() };
        proof {
            assert forall|a: usize| !r.contains(a) by {
                assert(r.spec_addrs().len() == 0);
            }
        }
        r
    }

    /// Index of `a` in the address list, by linear scan.
    fn find(&self, a: usize) -> (r: Option<usize>)
        requires
            self.wf(),
        ensures
            match r {
                Option::Some(k) => k < self.spec_addrs().len() && self.spec_addrs()[k as int] == a
                    && k == self.spec_addrs().index_of(a),
                Option::None => !self.contains(a),
            },
    {
        let n = self.addrs.len();
        let mut k: usize = 0;
        while k < n
            invariant
                self.wf(),
                n == self.spec_addrs().len(),
                k <= n,
                forall|j: int| 0 <= j < k ==> self.spec_addrs()[j] != a,
            decreases n - k,
        {
            if self.addrs[k] == a {
                proof {
                    lemma_index_unique(self.spec_addrs(), k as int, a);
                }
                return Option::Some(k);
            }
            k = k + 1;
        }
        proof {
            assert forall|j: int| 0 <= j < self.spec_addrs().len() implies self.spec_addrs()[j]
                != a by {}
            assert(!self.spec_addrs().contains(a));
        }
        Option::None
    }

    /// Whether a table is stored at `a`.
    pub fn has_table(&self, a: usize) -> (r: bool)
        requires
            self.wf(),
        ensures
            r == self.contains(a),
    {
        match self.find(a) {
            Option::Some(_) => true,
            Option::None => false,
        }
    }

    /// Read one entry of the table at `a`.
    pub fn table_entry(&self, a: usize, idx: usize) -> (r: PageTableEntry)
        requires
            self.wf(),
            self.contains(a),
            idx < TABLE_ENTRIES,
        ensures
            r == self.table_of(a).view()[idx as int],
    {
        let k = match self.find(a) {
            Option::Some(k) => k,
            Option::None => {
                proof {
                    assert(false);
                }
                0
            },
        };
        *self.tables[k].entry(idx)
    }

    /// Overwrite one entry of the table at `a`; every other entry and every
    /// other table is untouched.
    pub fn set_table_entry(&mut self, a: usize, idx: usize, e: PageTableEntry)
        requires
            old(self).wf(),
            old(self).contains(a),
            idx < TABLE_ENTRIES,
        ensures
            final(self).wf(),
            forall|b: usize| final(self).contains(b) == old(self).contains(b),
            final(self).table_of(a).view() == old(self).table_of(a).view().update(idx as int, e),
            forall|b: usize|
                old(self).contains(b) && b != a ==> #[trigger] final(self).table_of(b) == old(
                    self,
                ).table_of(b),
    {
        let k = match self.find(a) {
            Option::Some(k) => k,
            Option::None => {
                proof {
                    assert(false);
                }
                0
            },
        };
        let mut t = PageTable::new();
        core::mem::swap(&mut t, &mut self.tables[k]);
        t.set_entry(idx, e);
        core::mem::swap(&mut t, &mut self.tables[k]);
        proof {
            let pre = *old(self);
            lemma_index_unique(pre.spec_addrs(), k as int, a);
            assert forall|b: usize|
                pre.contains(b) && b != a implies #[trigger] self.table_of(b) == pre.table_of(
                b,
            ) by {
                let kb = pre.spec_addrs().index_of(b);
                assert(0 <= kb < pre.spec_addrs().len() && pre.spec_addrs()[kb] == b);
                assert(kb != k);
            }
        }
    }

    /// Install a fresh, all-clear table at address `a`, which must not hold
    /// a table yet; every existing table is untouched.
    pub fn create_table(&mut self, a: usize)
        requires
            old(self).wf(),
            !old(self).contains(a),
        ensures
            final(self).wf(),
            forall|b: usize|
                #[trigger] final(self).contains(b) == (old(self).contains(b) || b == a),
            final(self).table_of(a).wf(),
            final(self).table_of(a).all_clear(),
            forall|b: usize|
                old(self).contains(b) ==> #[trigger] final(self).table_of(b) == old(self).table_of(
                    b,
                ),
    {
        let t = PageTable::new();
        self.addrs.push(a);
        self.tables.push(t);
        proof {
            let pre = *old(self);
            let n = pre.spec_addrs().len() as int;
            assert(self.spec_addrs() == pre.spec_addrs().push(a));
            assert forall|b: usize|
                #[trigger] self.contains(b) == (pre.contains(b) || b == a) by {
                if pre.contains(b) {
                    let j = choose|j: int| 0 <= j < n && pre.spec_addrs()[j] == b;
                    assert(self.spec_addrs()[j] == b);
                }
                if b == a {
                    assert(self.spec_addrs()[n] == b);
                }
                if self.contains(b) {
                    let j = choose|j: int|
                        0 <= j < n + 1 && self.spec_addrs()[j] == b;
                    if j < n {
                        assert(pre.spec_addrs()[j] == b);
                    }
                }
            }
            assert(self.spec_addrs().no_duplicates()) by {
                assert forall|i: int, j: int|
                    0 <= i < j < self.spec_addrs().len() implies self.spec_addrs()[i]
                    != self.spec_addrs()[j] by {
                    if j == n {
                        assert(pre.spec_addrs().contains(pre.spec_addrs()[i]));
                    }
                }
            }
            lemma_index_unique(self.spec_addrs(), n, a);
            assert(self.table_of(a) == t);
            assert forall|b: usize|
                pre.contains(b) implies #[trigger] self.table_of(b) == pre.table_of(b) by {
                let kp = pre.spec_addrs().index_of(b);
                assert(0 <= kp < n && pre.spec_addrs()[kp] == b);
                lemma_index_unique(self.spec_addrs(), kp, b);
            }
        }
    }
}


/// Largest physical address (exclusive) that an entry's address field can
/// hold: the field covers bits 12..51.
pub const MAX_TABLE_ADDR: u64 = 0x0010_0000_0000_0000;

/// Whether `flags` stays out of an entry's address field, as a flag word
/// must.
pub open spec fn flags_fit(flags: u64) -> bool {
    flags & ENTRY_ADDR_MASK == 0
}

/// Each architectural flag's bit avoids the entry's address field, and
/// only the present flag occupies bit zero.
pub proof fn lemma_flag_word_fits(f: PageTableFlags)
    ensures
        flags_fit(f.spec_bits()),
        f.spec_bits() & 1 == (if f == PageTableFlags::Present {
            1u64
        } else {
            0u64
        }),
{
    assert(1u64 & 0x000F_FFFF_FFFF_F000 == 0 && 2u64 & 0x000F_FFFF_FFFF_F000 == 0 && 4u64
        & 0x000F_FFFF_FFFF_F000 == 0 && 8u64 & 0x000F_FFFF_FFFF_F000 == 0 && 0x10u64
        & 0x000F_FFFF_FFFF_F000 == 0 && 0x20u64 & 0x000F_FFFF_FFFF_F000 == 0 && 0x40u64
        & 0x000F_FFFF_FFFF_F000 == 0 && 0x80u64 & 0x000F_FFFF_FFFF_F000 == 0 && 0x100u64
        & 0x000F_FFFF_FFFF_F000 == 0 && 0x8000_0000_0000_0000u64 & 0x000F_FFFF_FFFF_F000 == 0
        && 1u64 & 1 == 1 && 2u64 & 1 == 0 && 4u64 & 1 == 0 && 8u64 & 1 == 0 && 0x10u64 & 1 == 0
        && 0x20u64 & 1 == 0 && 0x40u64 & 1 == 0 && 0x80u64 & 1 == 0 && 0x100u64 & 1 == 0
        && 0x8000_0000_0000_0000u64 & 1 == 0) by (bit_vector);
}

/// Combining two flag words that avoid the address field keeps avoiding
/// it, and the combination carries the present bit exactly when one of
/// the two does.
pub proof fn lemma_flag_words_or(a: u64, b: u64)
    by (bit_vector)
    ensures
        flags_fit(a) && flags_fit(b) ==> flags_fit(a | b),
        ((a | b) & 1 == 0) <==> (a & 1 == 0 && b & 1 == 0),
{
}

/// Whether a raw entry word has the present flag.
pub open spec fn entry_present(raw: u64) -> bool {
    PageTableEntry::spec_flag_of(raw, PageTableFlags::Present)
}

/// The table or frame address a present entry points to, as the walk
/// reads it back.
pub open spec fn entry_target(raw: u64) -> usize {
    PageTableEntry::spec_address_of(raw) as usize
}

/// One step of the table walk: the address the entry at `idx` of the table
/// at `a` points to, or `None` when the table is absent or the entry is
/// not present.
pub open spec fn walk_step(st: TableStorage, a: usize, idx: usize) -> Option<usize> {
    if st.contains(a) && entry_present(st.table_of(a).view()[idx as int].spec_raw()) {
        Option::Some(entry_target(st.table_of(a).view()[idx as int].spec_raw()))
    } else {
        Option::None
    }
}

/// The full four-level translation of `va` from the table rooted at
/// `root`: the physical address it maps to, or `None` at the first absent
/// table or non-present entry.
pub open spec fn translate_spec(st: TableStorage, root: usize, va: usize) -> Option<int> {
    match walk_step(st, root, pml4_index_spec(va)) {
        Option::None => Option::None,
        Option::Some(t2) => match walk_step(st, t2, pdpt_index_spec(va)) {
            Option::None => Option::None,
            Option::Some(t3) => match walk_step(st, t3, pd_index_spec(va)) {
                Option::None => Option::None,
                Option::Some(t4) => {
                    if st.contains(t4) && entry_present(
                        st.table_of(t4).view()[pt_index_spec(va) as int].spec_raw(),
                    ) {
                        Option::Some(
                            PageTableEntry::spec_address_of(
                                st.table_of(t4).view()[pt_index_spec(va) as int].spec_raw(),
                            ) + page_offset_spec(va),
                        )
                    } else {
                        Option::None
                    }
                },
            },
        },
    }
}

/// Lowest virtual address (exclusive bound) the four-level walk can
/// distinguish: the indices read bits 12..47, so addresses at or above
/// this bound alias a lower one.
pub const MAX_LOW_VADDR: u64 = 0x0001_0000_0000_0000;

/// Every page of `[sa, q)` translates to itself: to its own address when
/// the requested flags carry the present bit, to nothing otherwise.
pub open spec fn identity_mapped_below(
    st: TableStorage,
    rt: usize,
    flags: u64,
    sa: int,
    q: int,
) -> bool {
    forall|p: usize|
        sa <= p < q && p % PAGE_SIZE == 0 ==> #[trigger] translate_spec(st, rt, p) == (if flags
            & 1 != 0 {
            Option::Some(p as int)
        } else {
            Option::None
        })
}

/// Below the four-level limit, the four indices determine the page: two
/// such addresses with equal indices lie in the same page.
proof fn lemma_indices_determine_page(w: usize, p: usize)
    by (bit_vector)
    requires
        (w as u64) < 0x0001_0000_0000_0000,
        (p as u64) < 0x0001_0000_0000_0000,
        p % 4096 == 0,
        pml4_index_spec(w) == pml4_index_spec(p),
        pdpt_index_spec(w) == pdpt_index_spec(p),
        pd_index_spec(w) == pd_index_spec(p),
        pt_index_spec(w) == pt_index_spec(p),
    ensures
        p <= w < p + 4096,
{
}

/// `a` is a frame the allocator currently tracks as allocated.
pub open spec fn allocator_owned(fa: FrameAllocator, a: usize) -> bool {
    exists|i: int|
        0 <= i < fa.spec_total() && #[trigger] fa.bit(i) && a == #[trigger] fa.frame_address(i)
}

/// An address field holds a frame-aligned value below the field's
/// capacity, and a stored value within those bounds reads back exactly.
proof fn lemma_entry_encode(f: u64, flags: u64, raw: u64)
    by (bit_vector)
    ensures
        raw & 0x000F_FFFF_FFFF_F000 < 0x0010_0000_0000_0000,
        raw & 0x000F_FFFF_FFFF_F000 <= raw,
        (raw & 0x000F_FFFF_FFFF_F000) % 4096 == 0,
        f % 4096 == 0 && f < 0x0010_0000_0000_0000 && flags & 0x000F_FFFF_FFFF_F000 == 0 ==> ((f
            & 0x000F_FFFF_FFFF_F000) | flags) & 0x000F_FFFF_FFFF_F000 == f,
        flags & 1 != 0 ==> (((f & 0x000F_FFFF_FFFF_F000) | flags) & 1) != 0,
        flags & 1 == 0 && f % 4096 == 0 ==> (((f & 0x000F_FFFF_FFFF_F000) | flags) & 1) == flags
            & 1,
        0u64 & 1 == 0,
        3u64 & 0x000F_FFFF_FFFF_F000 == 0,
        3u64 & 1 != 0,
{
}

/// A page-aligned address leaves room for any in-page offset: the word's
/// largest value sits at the end of a page.
proof fn lemma_aligned_plus_offset(a: usize, off: usize)
    requires
        a % 4096 == 0,
        off < 4096,
    ensures
        a + off <= usize::MAX,
{
    vstd::layout::unsigned_int_max_values();
    vstd::arithmetic::power2::lemma2_to64();
    assert(usize::BITS >= 32) by {
        if usize::BITS < 32 {
            vstd::arithmetic::power2::lemma_pow2_strictly_increases(usize::BITS as nat, 32);
        }
    }
    vstd::arithmetic::power2::lemma_pow2_adds(12, (usize::BITS - 12) as nat);
    let m = vstd::arithmetic::power2::pow2((usize::BITS - 12) as nat) as int;
    assert(usize::MAX as int == 4096 * m - 1);
    let q = a as int / 4096;
    vstd::arithmetic::div_mod::lemma_fundamental_div_mod(a as int, 4096);
    assert(a as int == 4096 * q);
    assert(4096 * q + 4095 <= 4096 * m - 1) by (nonlinear_arith)
        requires
            4096 * q <= 4096 * m - 1,
    ;
}

/// Manager of one address space: walks and edits the four-level table
/// structure rooted at `pml4_address`.
///
/// The ghost `levels` map records, for every table the structure owns, the
/// depth it stands at (1 for the root, 4 for a leaf table); the invariant
/// below ties it to the storage and the frame allocator.
pub struct PageMapper {
    pml4_address: PhysicalAddress,
    levels: Ghost<Map<usize, int>>,
}

impl PageMapper {
    /// Physical address of the root table.
    pub closed spec fn spec_root(self) -> usize {
        self.pml4_address.0
    }

    /// Depth of every owned table, keyed by table address.
    pub closed spec fn spec_levels(self) -> Map<usize, int> {
        self.levels@
    }

    /// One entry of an owned table is sound: a present entry holds a
    /// representable address, and below the leaf level it points to an
    /// owned table of the next depth.
    pub open spec fn entry_ok(self, st: TableStorage, a: usize, idx: int) -> bool {
        let raw = st.table_of(a).view()[idx].spec_raw();
        entry_present(raw) ==> {
            &&& PageTableEntry::spec_address_of(raw) <= usize::MAX
            &&& (self.spec_levels()[a] <= 3 ==> self.spec_levels().dom().contains(
                entry_target(raw),
            ) && self.spec_levels()[entry_target(raw)] == self.spec_levels()[a] + 1)
        }
    }

    /// A present entry `idx` of the owned non-leaf table at `a` points to
    /// the table at `child`.
    pub open spec fn points_to(self, st: TableStorage, a: usize, idx: int, child: usize) -> bool {
        &&& self.spec_levels().dom().contains(a)
        &&& self.spec_levels()[a] <= 3
        &&& 0 <= idx < 512
        &&& entry_present(st.table_of(a).view()[idx].spec_raw())
        &&& entry_target(st.table_of(a).view()[idx].spec_raw()) == child
    }

    /// Structural invariant between the mapper and the table storage: the
    /// storage holds exactly the owned tables, the root is owned at depth
    /// 1, depths lie in 1..4, every entry is sound, and every table has at
    /// most one parent entry.
    pub open spec fn st_inv(self, st: TableStorage) -> bool {
        &&& st.wf()
        &&& forall|a: usize| #[trigger] self.spec_levels().dom().contains(a) ==> st.contains(a)
        &&& forall|a: usize| #[trigger] st.contains(a) ==> self.spec_levels().dom().contains(a)
        &&& self.spec_levels().dom().contains(self.spec_root())
        &&& self.spec_levels()[self.spec_root()] == 1
        &&& forall|a: usize|
            #[trigger] self.spec_levels().dom().contains(a) ==> 1 <= self.spec_levels()[a] <= 4
        &&& forall|a: usize, idx: int|
            self.spec_levels().dom().contains(a) && 0 <= idx < 512 ==> #[trigger] self.entry_ok(
                st,
                a,
                idx,
            )
        &&& forall|a1: usize, i1: int, a2: usize, i2: int, c: usize|
            #[trigger] self.points_to(st, a1, i1, c) && #[trigger] self.points_to(st, a2, i2, c)
                ==> a1 == a2 && i1 == i2
    }

    /// Tie to the frame allocator: the managed region is frame-aligned and
    /// fits the entries' address field, every owned table except the root
    /// sits on an allocated frame, and no free frame coincides with the
    /// root. This is what makes a freshly allocated frame distinct from
    /// every owned table.
    pub open spec fn alloc_tie(self, fa: FrameAllocator) -> bool {
        &&& fa.wf()
        &&& fa.spec_start() % FRAME_SIZE == 0
        &&& fa.spec_start() + fa.spec_total() * FRAME_SIZE <= MAX_TABLE_ADDR
        &&& forall|a: usize|
            #[trigger] self.spec_levels().dom().contains(a) && a != self.spec_root()
                ==> allocator_owned(fa, a)
        &&& forall|i: int|
            0 <= i < fa.spec_total() && self.spec_root() == #[trigger] fa.frame_address(i)
                ==> fa.bit(i)
    }

    /// The mapper's full invariant.
    pub open spec fn inv(self, st: TableStorage, fa: FrameAllocator) -> bool {
        self.st_inv(st) && self.alloc_tie(fa)
    }

    /// Create a mapper rooted at an existing table.
    pub fn new(pml4_addr: PhysicalAddress) -> (r: Self)
        ensures
            r.spec_root() == pml4_addr.0,
            r.spec_levels() == map![pml4_addr.0 => 1int],
    {
        let ghost lv: Map<usize, int> = map![pml4_addr.0 => 1int];
        PageMapper { pml4_address: pml4_addr, levels: Ghost(lv) }
    }

    /// Get the root table's physical address.
    pub fn pml4_address(&self) -> (r: PhysicalAddress)
        ensures
            r.0 == self.spec_root(),
    {
        self.pml4_address
    }

    /// A fresh mapper satisfies the invariant when the storage holds
    /// exactly one all-clear root table and the allocator's region is
    /// frame-aligned, fits the entry address field, and has no free frame
    /// at the root's address.
    pub proof fn lemma_initial_inv(self, st: TableStorage, fa: FrameAllocator)
        requires
            self.spec_levels() == map![self.spec_root() => 1int],
            st.wf(),
            st.contains(self.spec_root()),
            st.table_of(self.spec_root()).all_clear(),
            forall|b: usize| #[trigger] st.contains(b) ==> b == self.spec_root(),
            fa.wf(),
            fa.spec_start() % FRAME_SIZE == 0,
            fa.spec_start() + fa.spec_total() * FRAME_SIZE <= MAX_TABLE_ADDR,
            forall|i: int|
                0 <= i < fa.spec_total() && self.spec_root() == #[trigger] fa.frame_address(i)
                    ==> fa.bit(i),
        ensures
            self.inv(st, fa),
    {
        let root = self.spec_root();
        assert(self.spec_levels().dom().contains(root));
        assert forall|a: usize, idx: int|
            self.spec_levels().dom().contains(a) && 0 <= idx < 512 implies #[trigger] self.entry_ok(
            st,
            a,
            idx,
        ) by {
            assert(a == root);
            assert(st.table_of(root).view()[idx].spec_raw() == 0);
            lemma_entry_encode(0, 0, 0);
            assert(PageTableFlags::Present.spec_bits() == 1);
        }
        assert forall|a1: usize, i1: int, c: usize| !(#[trigger] self.points_to(
            st,
            a1,
            i1,
            c,
        )) by {
            if self.spec_levels().dom().contains(a1) && 0 <= i1 < 512 {
                assert(a1 == root);
                assert(st.table_of(root).view()[i1].spec_raw() == 0);
                lemma_entry_encode(0, 0, 0);
                assert(PageTableFlags::Present.spec_bits() == 1);
            }
        }
    }

    /// Frame addresses are aligned, representable, and distinct for
    /// distinct indices.
    proof fn lemma_frame_addr_facts(fa: FrameAllocator, i: int)
        requires
            fa.wf(),
            fa.spec_start() % FRAME_SIZE == 0,
            fa.spec_start() + fa.spec_total() * FRAME_SIZE <= MAX_TABLE_ADDR,
            0 <= i < fa.spec_total(),
        ensures
            fa.frame_address(i) % (FRAME_SIZE as int) == 0,
            0 <= fa.frame_address(i),
            fa.frame_address(i) + FRAME_SIZE <= MAX_TABLE_ADDR,
            forall|j: int|
                0 <= j < fa.spec_total() && j != i ==> #[trigger] fa.frame_address(j)
                    != fa.frame_address(i),
    {
        vstd::arithmetic::div_mod::lemma_mod_multiples_basic(i, FRAME_SIZE as int);
        vstd::arithmetic::div_mod::lemma_add_mod_noop(
            fa.spec_start() as int,
            i * FRAME_SIZE,
            FRAME_SIZE as int,
        );
        vstd::arithmetic::mul::lemma_mul_nonnegative(i, FRAME_SIZE as int);
        vstd::arithmetic::mul::lemma_mul_inequality(i + 1, fa.spec_total() as int, FRAME_SIZE as int);
        vstd::arithmetic::mul::lemma_mul_is_distributive_add_other_way(FRAME_SIZE as int, i, 1);
        assert forall|j: int|
            0 <= j < fa.spec_total() && j != i implies #[trigger] fa.frame_address(j)
            != fa.frame_address(i) by {
            if j < i {
                vstd::arithmetic::mul::lemma_mul_strict_inequality(j, i, FRAME_SIZE as int);
            } else {
                vstd::arithmetic::mul::lemma_mul_strict_inequality(i, j, FRAME_SIZE as int);
            }
        }
    }

    /// A frame returned by a successful allocation is not an owned table.
    proof fn lemma_fresh_frame(
        self,
        st: TableStorage,
        fa_pre: FrameAllocator,
        fa_post: FrameAllocator,
        i: int,
        f: usize,
    )
        requires
            self.inv(st, fa_pre),
            fa_post.wf(),
            FrameAllocator::allocated_one_at(fa_pre, fa_post, i),
            f == fa_pre.frame_address(i),
        ensures
            !self.spec_levels().dom().contains(f),
            !st.contains(f),
            self.alloc_tie(fa_post),
    {
        Self::lemma_frame_addr_facts(fa_pre, i);
        if self.spec_levels().dom().contains(f) {
            if f == self.spec_root() {
                assert(fa_pre.bit(i));
            } else {
                assert(allocator_owned(fa_pre, f));
                let j = choose|j: int|
                    0 <= j < fa_pre.spec_total() && #[trigger] fa_pre.bit(j) && f
                        == #[trigger] fa_pre.frame_address(j);
                assert(j == i);
            }
            assert(false);
        }
        assert forall|a: usize|
            #[trigger] self.spec_levels().dom().contains(a) && a != self.spec_root()
                implies allocator_owned(fa_post, a) by {
            let j = choose|j: int|
                0 <= j < fa_pre.spec_total() && #[trigger] fa_pre.bit(j) && a
                    == #[trigger] fa_pre.frame_address(j);
            assert(fa_post.bit(j));
            assert(fa_post.frame_address(j) == a);
        }
        assert forall|j: int|
            0 <= j < fa_post.spec_total() && self.spec_root() == #[trigger] fa_post.frame_address(
                j,
            ) implies fa_post.bit(j) by {
            assert(fa_pre.frame_address(j) == fa_post.frame_address(j));
        }
    }

    /// Walk one level down from the table at `parent`, creating the child
    /// table on demand: when the entry at `idx` is present its target is
    /// returned and nothing changes; otherwise a frame is allocated, an
    /// all-clear table is installed there, and the entry is set to point at
    /// it with the present and writable flags. Fails only when no frame is
    /// free, changing nothing.
    #[verifier::rlimit(100)]
    fn get_or_create_table(
        &mut self,
        st: &mut TableStorage,
        allocator: &mut FrameAllocator,
        parent: usize,
        idx: usize,
    ) -> (r: Result<usize, MapperError>)
        requires
            old(self).inv(*old(st), *old(allocator)),
            old(self).spec_levels().dom().contains(parent),
            old(self).spec_levels()[parent] <= 3,
            idx < TABLE_ENTRIES,
        ensures
            final(self).inv(*final(st), *final(allocator)),
            final(self).spec_root() == old(self).spec_root(),
            final(allocator).spec_total() == old(allocator).spec_total(),
            final(allocator).spec_start() == old(allocator).spec_start(),
            forall|j: int|
                0 <= j < old(allocator).spec_total() && old(allocator).bit(j)
                    ==> final(allocator).bit(j),
            forall|b: usize|
                #[trigger] old(self).spec_levels().dom().contains(b)
                    ==> final(self).spec_levels().dom().contains(b)
                    && final(self).spec_levels()[b] == old(self).spec_levels()[b],
            forall|b: usize| #[trigger] old(st).contains(b) ==> final(st).contains(b),
            final(allocator).spec_allocated() <= old(allocator).spec_allocated() + 1,
            forall|w: usize|
                #[trigger] translate_spec(*final(st), old(self).spec_root(), w) == translate_spec(
                    *old(st),
                    old(self).spec_root(),
                    w,
                ),
            match r {
                Result::Ok(child) => {
                    &&& final(self).spec_levels().dom().contains(child)
                    &&& final(self).spec_levels()[child] == old(self).spec_levels()[parent] + 1
                    &&& walk_step(*final(st), parent, idx) == Option::Some(child)
                    &&& forall|j: int|
                        0 <= j < 512 && j != idx ==> final(st).table_of(parent).view()[j]
                            == old(st).table_of(parent).view()[j]
                    &&& forall|b: usize|
                        #[trigger] old(st).contains(b) && b != parent ==> final(st).table_of(b)
                            == old(st).table_of(b)
                    &&& (entry_present(old(st).table_of(parent).view()[idx as int].spec_raw())
                        ==> *final(st) == *old(st) && *final(allocator) == *old(allocator)
                        && *final(self) == *old(self) && child == entry_target(
                            old(st).table_of(parent).view()[idx as int].spec_raw(),
                        ))
                    &&& (!entry_present(old(st).table_of(parent).view()[idx as int].spec_raw())
                        ==> !old(st).contains(child) && final(st).contains(child)
                        && final(st).table_of(child).all_clear())
                },
                Result::Err(e) => {
                    &&& e == MapperError::OutOfMemory
                    &&& !entry_present(old(st).table_of(parent).view()[idx as int].spec_raw())
                    &&& *final(st) == *old(st)
                    &&& *final(self) == *old(self)
                    &&& *final(allocator) == *old(allocator)
                    &&& old(allocator).spec_allocated() == old(allocator).spec_total()
                    &&& forall|j: int|
                        0 <= j < old(allocator).spec_total() ==> old(allocator).bit(j)
                },
            },
    {
        let e = st.table_entry(parent, idx);
        if e.is_present() {
            let child_pa = e.physical_address();
            let child = child_pa.as_usize();
            proof {
                assert(self.entry_ok(*st, parent, idx as int));
            }
            Result::Ok(child)
        } else {
            match allocator.allocate_frame() {
                Option::None => {
                    proof {
                        assert forall|j: int|
                            0 <= j < allocator.spec_total() implies allocator.spec_bitmap().bit(
                            j,
                        ) by {
                            assert(allocator.bit(j));
                        }
                        allocator.spec_bitmap().lemma_num_set_all_set(
                            allocator.spec_total() as int,
                        );
                    }
                    Result::Err(MapperError::OutOfMemory)
                },
                Option::Some(frame) => {
                    let f = frame.as_usize();
                    let ghost pre_self = *old(self);
                    let ghost pre_st = *old(st);
                    let ghost pre_fa = *old(allocator);
                    let ghost i_f = choose|i: int|
                        #[trigger] FrameAllocator::allocated_one_at(pre_fa, *allocator, i)
                            && frame.0 == pre_fa.frame_address(i);
                    proof {
                        pre_self.lemma_fresh_frame(pre_st, pre_fa, *allocator, i_f, f);
                        Self::lemma_frame_addr_facts(pre_fa, i_f);
                    }
                    st.create_table(f);
                    let mut e2 = PageTableEntry::new();
                    e2.set_address(
                        frame,
                        PageTableFlags::Present.bits() | PageTableFlags::Writable.bits(),
                    );
                    proof {
                        assert(PageTableFlags::Present.spec_bits()
                            | PageTableFlags::Writable.spec_bits() == 3u64) by (bit_vector);
                        lemma_entry_encode(f as u64, 3u64, 0);
                        assert((f as u64) % 4096 == (f as int) % 4096);
                        assert(PageTableEntry::spec_address_of(e2.spec_raw()) == f as u64);
                        assert(entry_present(e2.spec_raw()));
                    }
                    st.set_table_entry(parent, idx, e2);
                    let ghost lvl = pre_self.spec_levels()[parent] + 1;
                    let ghost lv2 = self.levels@.insert(f, lvl);
                    proof {
                        assert(parent != f);
                    }
                    self.levels = Ghost(lv2);
                    proof {
                        let post = *self;
                        assert(post.spec_levels() == pre_self.spec_levels().insert(f, lvl));
                        assert(entry_target(e2.spec_raw()) == f);
                        assert(st.table_of(parent).view()[idx as int] == e2);
                        assert forall|a: usize, j: int|
                            post.spec_levels().dom().contains(a) && 0 <= j < 512 implies
                            #[trigger] post.entry_ok(*st, a, j) by {
                            if a == f {
                                assert(st.table_of(f).all_clear());
                                assert(st.table_of(f).view()[j].spec_raw() == 0);
                                lemma_entry_encode(0, 0, 0);
                                assert(PageTableFlags::Present.spec_bits() == 1);
                            } else {
                                assert(pre_self.spec_levels().dom().contains(a));
                                assert(pre_self.entry_ok(pre_st, a, j));
                                if a == parent && j == idx {
                                    assert(post.entry_ok(*st, a, j));
                                } else {
                                    assert(st.table_of(a).view()[j] == pre_st.table_of(a).view()[
                                        j]);
                                }
                            }
                        }
                        assert forall|a1: usize, i1: int, c: usize|
                            #[trigger] post.points_to(*st, a1, i1, c) && !(a1 == parent && i1
                                == idx && c == f) implies pre_self.points_to(
                            pre_st,
                            a1,
                            i1,
                            c,
                        ) by {
                            assert(a1 != f);
                            assert(pre_self.spec_levels().dom().contains(a1));
                            if a1 == parent && i1 == idx {
                                assert(c == f);
                                assert(false);
                            } else {
                                assert(st.table_of(a1).view()[i1] == pre_st.table_of(
                                    a1,
                                ).view()[i1]);
                            }
                        }
                        assert forall|a1: usize, i1: int, a2: usize, i2: int, c: usize|
                            #[trigger] post.points_to(*st, a1, i1, c) && #[trigger] post.points_to(
                            *st,
                            a2,
                            i2,
                            c,
                        ) implies a1 == a2 && i1 == i2 by {
                            if c == f {
                                if !(a1 == parent && i1 == idx) {
                                    assert(pre_self.points_to(pre_st, a1, i1, c));
                                    assert(pre_self.entry_ok(pre_st, a1, i1));
                                    assert(pre_self.spec_levels().dom().contains(f));
                                    assert(false);
                                }
                                if !(a2 == parent && i2 == idx) {
                                    assert(pre_self.points_to(pre_st, a2, i2, c));
                                    assert(pre_self.entry_ok(pre_st, a2, i2));
                                    assert(false);
                                }
                            } else {
                                assert(pre_self.points_to(pre_st, a1, i1, c));
                                assert(pre_self.points_to(pre_st, a2, i2, c));
                            }
                        }
                        assert(post.st_inv(*st));
                        pre_self.lemma_fresh_frame(pre_st, pre_fa, *allocator, i_f, f);
                        assert forall|a: usize|
                            #[trigger] post.spec_levels().dom().contains(a) && a
                                != post.spec_root() implies allocator_owned(*allocator, a) by {
                            if a == f {
                                assert(allocator.bit(i_f));
                                assert(allocator.frame_address(i_f) == f);
                            }
                        }
                        assert(post.alloc_tie(*allocator));
                        assert(walk_step(*st, parent, idx) == Option::Some(f));
                        let rt = pre_self.spec_root();
                        let lvl_parent = pre_self.spec_levels()[parent];
                        assert forall|w: usize|
                            #[trigger] translate_spec(*st, rt, w) == translate_spec(
                            pre_st,
                            rt,
                            w,
                        ) by {
                            crate::memory::lemma_index_bounds(w);
                            let j4 = pml4_index_spec(w);
                            let j3 = pdpt_index_spec(w);
                            let j2 = pd_index_spec(w);
                            let j1 = pt_index_spec(w);
                            lemma_entry_encode(0, 0, 0);
                            assert(PageTableFlags::Present.spec_bits() == 1);
                            assert(pre_self.entry_ok(pre_st, rt, j4 as int));
                            if rt == parent && j4 == idx {
                                assert(lvl_parent == 1);
                                assert(st.table_of(f).view()[j3 as int].spec_raw() == 0);
                                assert(translate_spec(*st, rt, w) is None);
                                assert(translate_spec(pre_st, rt, w) is None);
                            } else {
                                assert(st.table_of(rt).view()[j4 as int] == pre_st.table_of(
                                    rt,
                                ).view()[j4 as int]);
                                let raw1 = pre_st.table_of(rt).view()[j4 as int].spec_raw();
                                if !entry_present(raw1) {
                                } else {
                                    let t2w = entry_target(raw1);
                                    assert(pre_self.spec_levels().dom().contains(t2w)
                                        && pre_self.spec_levels()[t2w] == 2);
                                    assert(t2w != f);
                                    assert(pre_self.entry_ok(pre_st, t2w, j3 as int));
                                    if t2w == parent && j3 == idx {
                                        assert(lvl_parent == 2);
                                        assert(st.table_of(f).view()[j2 as int].spec_raw()
                                            == 0);
                                        assert(translate_spec(*st, rt, w) is None);
                                        assert(translate_spec(pre_st, rt, w) is None);
                                    } else {
                                        assert(st.table_of(t2w).view()[j3 as int]
                                            == pre_st.table_of(t2w).view()[j3 as int]);
                                        let raw2 = pre_st.table_of(t2w).view()[
                                            j3 as int].spec_raw();
                                        if !entry_present(raw2) {
                                        } else {
                                            let t3w = entry_target(raw2);
                                            assert(pre_self.spec_levels().dom().contains(t3w)
                                                && pre_self.spec_levels()[t3w] == 3);
                                            assert(t3w != f);
                                            assert(pre_self.entry_ok(pre_st, t3w, j2 as int));
                                            if t3w == parent && j2 == idx {
                                                assert(lvl_parent == 3);
                                                assert(st.table_of(f).view()[
                                                    j1 as int].spec_raw() == 0);
                                                assert(translate_spec(*st, rt, w) is None);
                                                assert(translate_spec(pre_st, rt, w) is None);
                                            } else {
                                                assert(st.table_of(t3w).view()[j2 as int]
                                                    == pre_st.table_of(t3w).view()[j2 as int]);
                                                let raw3 = pre_st.table_of(t3w).view()[
                                                    j2 as int].spec_raw();
                                                if !entry_present(raw3) {
                                                } else {
                                                    let t4w = entry_target(raw3);
                                                    assert(pre_self.spec_levels().dom().contains(
                                                        t4w,
                                                    ) && pre_self.spec_levels()[t4w] == 4);
                                                    assert(t4w != f && t4w != parent);
                                                    assert(st.table_of(t4w) == pre_st.table_of(
                                                        t4w,
                                                    ));
                                                }
                                            }
                                        }
                                    }
                                }
                            }
                        }
                    }
                    Result::Ok(f)
                },
            }
        }
    }

    /// Translate a virtual address by a read-only walk: the physical
    /// address it maps to, or `None` the moment any level is absent.
    #[verifier::rlimit(100)]
    pub fn translate(&self, virt_addr: VirtualAddress, st: &TableStorage) -> (r: Option<
        PhysicalAddress,
    >)
        requires
            self.st_inv(*st),
        ensures
            match r {
                Option::Some(pa) => translate_spec(*st, self.spec_root(), virt_addr.0)
                    == Option::Some(pa.0 as int),
                Option::None => translate_spec(*st, self.spec_root(), virt_addr.0) is None,
            },
    {
        let root = self.pml4_address.as_usize();
        let e1 = st.table_entry(root, virt_addr.pml4_index());
        if !e1.is_present() {
            return Option::None;
        }
        proof {
            assert(self.entry_ok(*st, root, pml4_index_spec(virt_addr.0) as int));
        }
        let t2 = e1.physical_address().as_usize();
        let e2 = st.table_entry(t2, virt_addr.pdpt_index());
        if !e2.is_present() {
            return Option::None;
        }
        proof {
            assert(self.entry_ok(*st, t2, pdpt_index_spec(virt_addr.0) as int));
        }
        let t3 = e2.physical_address().as_usize();
        let e3 = st.table_entry(t3, virt_addr.pd_index());
        if !e3.is_present() {
            return Option::None;
        }
        proof {
            assert(self.entry_ok(*st, t3, pd_index_spec(virt_addr.0) as int));
        }
        let t4 = e3.physical_address().as_usize();
        let e4 = st.table_entry(t4, virt_addr.pt_index());
        if !e4.is_present() {
            return Option::None;
        }
        proof {
            assert(self.entry_ok(*st, t4, pt_index_spec(virt_addr.0) as int));
            lemma_entry_encode(0, 0, e4.spec_raw());
        }
        let base = e4.physical_address().as_usize();
        let offset = virt_addr.page_offset();
        proof {
            lemma_aligned_plus_offset(base, offset);
        }
        Option::Some(PhysicalAddress::new(base + offset))
    }

    /// Unmap a virtual page: clear its leaf entry and return the physical
    /// address it was mapped to. A misaligned address, an absent
    /// intermediate table and an unmapped page all report `InvalidAddress`
    /// and change nothing.
    #[verifier::rlimit(100)]
    pub fn unmap_page(&mut self, virt_addr: VirtualAddress, st: &mut TableStorage) -> (r: Result<
        PhysicalAddress,
        MapperError,
    >)
        requires
            old(self).st_inv(*old(st)),
        ensures
            *final(self) == *old(self),
            final(self).st_inv(*final(st)),
            forall|b: usize| #[trigger] final(st).contains(b) == old(st).contains(b),
            forall|w: usize|
                !(pml4_index_spec(w) == pml4_index_spec(virt_addr.0) && pdpt_index_spec(w)
                    == pdpt_index_spec(virt_addr.0) && pd_index_spec(w) == pd_index_spec(
                    virt_addr.0,
                ) && pt_index_spec(w) == pt_index_spec(virt_addr.0)) ==> #[trigger] translate_spec(
                    *final(st),
                    old(self).spec_root(),
                    w,
                ) == translate_spec(*old(st), old(self).spec_root(), w),
            match r {
                Result::Ok(pa) => {
                    &&& virt_addr.0 % PAGE_SIZE == 0
                    &&& translate_spec(*old(st), old(self).spec_root(), virt_addr.0)
                        == Option::Some(pa.0 as int)
                    &&& forall|k: usize|
                        k < PAGE_SIZE ==> #[trigger] translate_spec(
                            *final(st),
                            old(self).spec_root(),
                            (virt_addr.0 + k) as usize,
                        ) is None
                },
                Result::Err(e) => {
                    &&& e == MapperError::InvalidAddress
                    &&& *final(st) == *old(st)
                    &&& (virt_addr.0 % PAGE_SIZE != 0 || translate_spec(
                        *old(st),
                        old(self).spec_root(),
                        virt_addr.0,
                    ) is None)
                },
            },
    {
        if !virt_addr.is_aligned(PAGE_SIZE) {
            return Result::Err(MapperError::InvalidAddress);
        }
        let root = self.pml4_address.as_usize();
        let e1 = st.table_entry(root, virt_addr.pml4_index());
        if !e1.is_present() {
            return Result::Err(MapperError::InvalidAddress);
        }
        proof {
            assert(self.entry_ok(*st, root, pml4_index_spec(virt_addr.0) as int));
        }
        let t2 = e1.physical_address().as_usize();
        let e2 = st.table_entry(t2, virt_addr.pdpt_index());
        if !e2.is_present() {
            return Result::Err(MapperError::InvalidAddress);
        }
        proof {
            assert(self.entry_ok(*st, t2, pdpt_index_spec(virt_addr.0) as int));
        }
        let t3 = e2.physical_address().as_usize();
        let e3 = st.table_entry(t3, virt_addr.pd_index());
        if !e3.is_present() {
            return Result::Err(MapperError::InvalidAddress);
        }
        proof {
            assert(self.entry_ok(*st, t3, pd_index_spec(virt_addr.0) as int));
        }
        let t4 = e3.physical_address().as_usize();
        let e4 = st.table_entry(t4, virt_addr.pt_index());
        if !e4.is_present() {
            return Result::Err(MapperError::InvalidAddress);
        }
        proof {
            assert(self.entry_ok(*st, t4, pt_index_spec(virt_addr.0) as int));
            lemma_entry_encode(0, 0, e4.spec_raw());
        }
        let phys = e4.physical_address();
        let ghost pre_st = *st;
        st.set_table_entry(t4, virt_addr.pt_index(), PageTableEntry::new());
        proof {
            let va = virt_addr.0;
            lemma_offset_within_page(va, 0, va);
            lemma_entry_encode(0, 0, 0);
            assert(PageTableFlags::Present.spec_bits() == 1);
            assert(!entry_present(0));
            assert forall|a: usize, j: int|
                self.spec_levels().dom().contains(a) && 0 <= j < 512 implies
                #[trigger] self.entry_ok(*st, a, j) by {
                assert(self.entry_ok(pre_st, a, j));
                if a == t4 && j == pt_index_spec(va) {
                    assert(st.table_of(a).view()[j].spec_raw() == 0);
                } else {
                    if a == t4 {
                        assert(st.table_of(a).view()[j] == pre_st.table_of(a).view()[j]);
                    } else {
                        assert(st.table_of(a) == pre_st.table_of(a));
                    }
                }
            }
            assert(self.spec_levels()[t4] == 4);
            assert(t4 != root && t4 != t2 && t4 != t3);
            assert(st.table_of(root) == pre_st.table_of(root));
            assert(st.table_of(t2) == pre_st.table_of(t2));
            assert(st.table_of(t3) == pre_st.table_of(t3));
            assert forall|a1: usize, i1: int, c: usize|
                #[trigger] self.points_to(*st, a1, i1, c) == self.points_to(
                pre_st,
                a1,
                i1,
                c,
            ) by {
                if self.spec_levels().dom().contains(a1) {
                    if a1 == t4 {
                        assert(self.spec_levels()[a1] == 4);
                    } else {
                        assert(st.table_of(a1) == pre_st.table_of(a1));
                    }
                }
            }
            assert(translate_spec(*st, self.spec_root(), va) is None);
            assert forall|k: usize|
                k < PAGE_SIZE implies #[trigger] translate_spec(
                *st,
                self.spec_root(),
                (va + k) as usize,
            ) is None by {
                lemma_aligned_plus_offset(va, k);
                let w = (va + k) as usize;
                lemma_offset_within_page(va, k, w);
                assert(pml4_index_spec(w) == pml4_index_spec(va) && pdpt_index_spec(w)
                    == pdpt_index_spec(va) && pd_index_spec(w) == pd_index_spec(va)
                    && pt_index_spec(w) == pt_index_spec(va));
            }
            let rt = self.spec_root();
            let i4 = pml4_index_spec(va);
            let i3 = pdpt_index_spec(va);
            let i2 = pd_index_spec(va);
            let i1 = pt_index_spec(va);
            // Pages with any differing index keep their old translation:
            // only one leaf entry changed, and each table has a unique
            // parent entry.
            assert forall|w: usize|
                !(pml4_index_spec(w) == i4 && pdpt_index_spec(w) == i3 && pd_index_spec(w) == i2
                    && pt_index_spec(w) == i1) implies #[trigger] translate_spec(*st, rt, w)
                == translate_spec(pre_st, rt, w) by {
                crate::memory::lemma_index_bounds(w);
                let j4 = pml4_index_spec(w);
                let j3 = pdpt_index_spec(w);
                let j2 = pd_index_spec(w);
                let j1 = pt_index_spec(w);
                assert(self.entry_ok(pre_st, rt, j4 as int));
                let raw1 = pre_st.table_of(rt).view()[j4 as int].spec_raw();
                if entry_present(raw1) {
                    let t2w = entry_target(raw1);
                    assert(self.spec_levels()[t2w] == 2 && self.spec_levels().dom().contains(
                        t2w,
                    ));
                    assert(t2w != t4);
                    assert(st.table_of(t2w) == pre_st.table_of(t2w));
                    assert(self.entry_ok(pre_st, t2w, j3 as int));
                    let raw2 = pre_st.table_of(t2w).view()[j3 as int].spec_raw();
                    if entry_present(raw2) {
                        let t3w = entry_target(raw2);
                        assert(self.spec_levels()[t3w] == 3
                            && self.spec_levels().dom().contains(t3w));
                        assert(t3w != t4);
                        assert(st.table_of(t3w) == pre_st.table_of(t3w));
                        assert(self.entry_ok(pre_st, t3w, j2 as int));
                        let raw3 = pre_st.table_of(t3w).view()[j2 as int].spec_raw();
                        if entry_present(raw3) {
                            let t4w = entry_target(raw3);
                            assert(self.spec_levels()[t4w] == 4
                                && self.spec_levels().dom().contains(t4w));
                            if t4w == t4 && j1 == i1 {
                                assert(self.points_to(pre_st, t3w, j2 as int, t4));
                                assert(self.points_to(pre_st, t3, i2 as int, t4));
                                assert(self.points_to(pre_st, t2w, j3 as int, t3));
                                assert(self.points_to(pre_st, t2, i3 as int, t3));
                                assert(self.points_to(pre_st, rt, j4 as int, t2));
                                assert(self.points_to(pre_st, rt, i4 as int, t2));
                                assert(false);
                            } else {
                                if t4w == t4 {
                                    assert(st.table_of(t4w).view()[j1 as int] == pre_st.table_of(
                                        t4w,
                                    ).view()[j1 as int]);
                                } else {
                                    assert(st.table_of(t4w) == pre_st.table_of(t4w));
                                }
                            }
                        }
                    }
                }
            }
        }
        Result::Ok(phys)
    }

    /// Map one virtual page to one physical frame with the given flags,
    /// creating intermediate tables from `allocator` as needed.
    ///
    /// Misaligned addresses are rejected up front; a page that is already
    /// mapped is never overwritten; running out of frames while building
    /// the path reports exhaustion. On success the page translates to the
    /// frame (for every offset within the page) exactly when `flags`
    /// include the present bit.
    #[verifier::rlimit(100)]
    pub fn map_page(
        &mut self,
        virt_addr: VirtualAddress,
        phys_addr: PhysicalAddress,
        flags: u64,
        allocator: &mut FrameAllocator,
        st: &mut TableStorage,
    ) -> (r: Result<(), MapperError>)
        requires
            old(self).inv(*old(st), *old(allocator)),
            (phys_addr.0 as u64) < MAX_TABLE_ADDR,
            flags_fit(flags),
        ensures
            final(self).inv(*final(st), *final(allocator)),
            final(self).spec_root() == old(self).spec_root(),
            final(allocator).spec_total() == old(allocator).spec_total(),
            final(allocator).spec_start() == old(allocator).spec_start(),
            forall|j: int|
                0 <= j < old(allocator).spec_total() && old(allocator).bit(j)
                    ==> final(allocator).bit(j),
            final(allocator).spec_allocated() <= old(allocator).spec_allocated() + 3,
            forall|b: usize|
                #[trigger] final(st).contains(b) ==> old(st).contains(b) || allocator_owned(
                    *final(allocator),
                    b,
                ),
            forall|w: usize|
                !(pml4_index_spec(w) == pml4_index_spec(virt_addr.0) && pdpt_index_spec(w)
                    == pdpt_index_spec(virt_addr.0) && pd_index_spec(w) == pd_index_spec(
                    virt_addr.0,
                ) && pt_index_spec(w) == pt_index_spec(virt_addr.0)) ==> #[trigger] translate_spec(
                    *final(st),
                    old(self).spec_root(),
                    w,
                ) == translate_spec(*old(st), old(self).spec_root(), w),
            match r {
                Result::Ok(u) => {
                    &&& virt_addr.0 % PAGE_SIZE == 0
                    &&& phys_addr.0 % PAGE_SIZE == 0
                    &&& translate_spec(*old(st), old(self).spec_root(), virt_addr.0) is None
                    &&& forall|k: usize|
                        k < PAGE_SIZE ==> #[trigger] translate_spec(
                            *final(st),
                            old(self).spec_root(),
                            (virt_addr.0 + k) as usize,
                        ) == (if flags & 1 != 0 {
                            Option::Some(phys_addr.0 + k as int)
                        } else {
                            Option::None
                        })
                },
                Result::Err(e) => {
                    &&& (e == MapperError::InvalidAddress <==> (virt_addr.0 % PAGE_SIZE != 0
                        || phys_addr.0 % PAGE_SIZE != 0))
                    &&& (e == MapperError::InvalidAddress ==> *final(st) == *old(st)
                        && *final(allocator) == *old(allocator) && *final(self) == *old(self))
                    &&& (e == MapperError::PageAlreadyMapped ==> *final(st) == *old(st)
                        && *final(allocator) == *old(allocator) && *final(self) == *old(self)
                        && translate_spec(*old(st), old(self).spec_root(), virt_addr.0) is Some)
                    &&& (e == MapperError::OutOfMemory ==> (forall|j: int|
                        0 <= j < final(allocator).spec_total() ==> final(allocator).bit(j))
                        && final(allocator).spec_allocated() == final(allocator).spec_total()
                        && translate_spec(*old(st), old(self).spec_root(), virt_addr.0) is None
                        && translate_spec(
                        *final(st),
                        old(self).spec_root(),
                        virt_addr.0,
                    ) is None)
                    &&& e != MapperError::TableCreationFailed
                },
            },
    {
        if !virt_addr.is_aligned(PAGE_SIZE) || !phys_addr.is_aligned(PAGE_SIZE) {
            return Result::Err(MapperError::InvalidAddress);
        }
        let ghost s0 = *old(st);
        let ghost a0 = *old(allocator);
        let ghost m0 = *old(self);
        let root = self.pml4_address.as_usize();
        let i4 = virt_addr.pml4_index();
        let i3 = virt_addr.pdpt_index();
        let i2 = virt_addr.pd_index();
        let i1 = virt_addr.pt_index();
        let t2 = match self.get_or_create_table(st, allocator, root, i4) {
            Result::Ok(t) => t,
            Result::Err(e) => {
                proof {
                    // The top-level entry was absent and nothing changed,
                    // so the page translated to nothing before and after.
                    assert(walk_step(s0, root, i4) is None);
                    assert(translate_spec(s0, m0.spec_root(), virt_addr.0) is None);
                }
                return Result::Err(e);
            },
        };
        let ghost s1 = *st;
        let ghost a1 = *allocator;
        let ghost m1 = *self;
        let t3 = match self.get_or_create_table(st, allocator, t2, i3) {
            Result::Ok(t) => t,
            Result::Err(e) => {
                proof {
                    // The second-level entry was absent: the walk after the
                    // call dies there, and the old walk died there or at
                    // the top level.
                    assert(walk_step(s1, root, i4) == Option::Some(t2));
                    assert(!entry_present(s1.table_of(t2).view()[i3 as int].spec_raw()));
                    assert(translate_spec(s1, m0.spec_root(), virt_addr.0) is None);
                    if entry_present(s0.table_of(root).view()[i4 as int].spec_raw()) {
                        assert(s1 == s0);
                    } else {
                        assert(walk_step(s0, root, i4) is None);
                    }
                    assert(translate_spec(s0, m0.spec_root(), virt_addr.0) is None);
                }
                return Result::Err(e);
            },
        };
        let ghost s2 = *st;
        let ghost a2 = *allocator;
        let ghost m2 = *self;
        let t4 = match self.get_or_create_table(st, allocator, t3, i2) {
            Result::Ok(t) => t,
            Result::Err(e) => {
                proof {
                    // The third-level entry was absent: the walk after the
                    // call dies there, and the old walk died at or above it.
                    assert(self.spec_levels()[root] == 1 && self.spec_levels()[t2] == 2);
                    assert(root != t2);
                    assert(s2.table_of(root) == s1.table_of(root));
                    assert(walk_step(s2, root, i4) == Option::Some(t2));
                    assert(walk_step(s2, t2, i3) == Option::Some(t3));
                    assert(!entry_present(s2.table_of(t3).view()[i2 as int].spec_raw()));
                    assert(translate_spec(s2, m0.spec_root(), virt_addr.0) is None);
                    if entry_present(s0.table_of(root).view()[i4 as int].spec_raw()) {
                        assert(s1 == s0);
                        if entry_present(s1.table_of(t2).view()[i3 as int].spec_raw()) {
                            assert(s2 == s1);
                        } else {
                            assert(walk_step(s0, t2, i3) is None);
                        }
                    } else {
                        assert(walk_step(s0, root, i4) is None);
                    }
                    assert(translate_spec(s0, m0.spec_root(), virt_addr.0) is None);
                }
                return Result::Err(e);
            },
        };
        let ghost s3 = *st;
        let ghost a3 = *allocator;
        let ghost m3 = *self;
        proof {
            assert(self.spec_levels()[root] == 1);
            assert(self.spec_levels()[t2] == 2);
            assert(self.spec_levels()[t3] == 3);
            assert(self.spec_levels()[t4] == 4);
        }
        let leaf = st.table_entry(t4, i1);
        if leaf.is_present() {
            proof {
                assert(entry_present(s2.table_of(t3).view()[i2 as int].spec_raw())) by {
                    if !entry_present(s2.table_of(t3).view()[i2 as int].spec_raw()) {
                        assert(s3.table_of(t4).all_clear());
                        assert(s3.table_of(t4).view()[i1 as int].spec_raw() == 0);
                        lemma_entry_encode(0, 0, 0);
                        assert(PageTableFlags::Present.spec_bits() == 1);
                    }
                }
                assert(s3 == s2 && a3 == a2 && m3 == m2);
                assert(entry_present(s1.table_of(t2).view()[i3 as int].spec_raw())) by {
                    if !entry_present(s1.table_of(t2).view()[i3 as int].spec_raw()) {
                        assert(s2.table_of(t3).all_clear());
                        lemma_entry_encode(0, 0, 0);
                        assert(PageTableFlags::Present.spec_bits() == 1);
                    }
                }
                assert(s2 == s1 && a2 == a1 && m2 == m1);
                assert(entry_present(s0.table_of(root).view()[i4 as int].spec_raw())) by {
                    if !entry_present(s0.table_of(root).view()[i4 as int].spec_raw()) {
                        assert(s1.table_of(t2).all_clear());
                        lemma_entry_encode(0, 0, 0);
                        assert(PageTableFlags::Present.spec_bits() == 1);
                    }
                }
                assert(s1 == s0 && a1 == a0 && m1 == m0);
                assert(walk_step(s0, root, i4) == Option::Some(t2));
                assert(walk_step(s0, t2, i3) == Option::Some(t3));
                assert(walk_step(s0, t3, i2) == Option::Some(t4));
                assert(translate_spec(s0, m0.spec_root(), virt_addr.0) is Some);
            }
            return Result::Err(MapperError::PageAlreadyMapped);
        }
        let mut e = PageTableEntry::new();
        e.set_address(phys_addr, flags);
        let ghost s3b = *st;
        st.set_table_entry(t4, i1, e);
        proof {
            let va = virt_addr.0;
            assert((phys_addr.0 as u64) % 4096 == 0);
            lemma_entry_encode(phys_addr.0 as u64, flags, e.spec_raw());
            assert(PageTableEntry::spec_address_of(e.spec_raw()) == phys_addr.0 as u64);
            assert(PageTableFlags::Present.spec_bits() == 1);
            assert(entry_present(e.spec_raw()) == (flags & 1 != 0));
            assert forall|a: usize, j: int|
                self.spec_levels().dom().contains(a) && 0 <= j < 512 implies
                #[trigger] self.entry_ok(*st, a, j) by {
                assert(self.entry_ok(s3, a, j));
                if a == t4 && j == i1 {
                    assert(st.table_of(a).view()[j] == e);
                } else {
                    if a == t4 {
                        assert(st.table_of(a).view()[j] == s3.table_of(a).view()[j]);
                    } else {
                        assert(st.table_of(a) == s3.table_of(a));
                    }
                }
            }
            assert forall|a1: usize, i1: int, c: usize|
                #[trigger] self.points_to(*st, a1, i1, c) == self.points_to(s3, a1, i1, c) by {
                if self.spec_levels().dom().contains(a1) {
                    if a1 == t4 {
                        assert(self.spec_levels()[a1] == 4);
                    } else {
                        assert(st.table_of(a1) == s3.table_of(a1));
                    }
                }
            }
            assert(self.st_inv(*st));
            assert(t4 != root && t4 != t2 && t4 != t3);
            assert(st.table_of(root).view()[i4 as int] == s3.table_of(root).view()[i4 as int])
                by {
                if root == t4 {
                    assert(false);
                }
            }
            assert(walk_step(*st, root, i4) == Option::Some(t2)) by {
                assert(walk_step(s3, root, i4) == Option::Some(t2)) by {
                    assert(walk_step(s1, root, i4) == Option::Some(t2));
                    assert(root != t2 && root != t3);
                    assert(s2.table_of(root) == s1.table_of(root));
                    assert(s3.table_of(root) == s2.table_of(root));
                }
                assert(st.table_of(root) == s3.table_of(root));
            }
            assert(walk_step(*st, t2, i3) == Option::Some(t3)) by {
                assert(walk_step(s2, t2, i3) == Option::Some(t3));
                assert(t2 != t3);
                assert(s3.table_of(t2) == s2.table_of(t2));
                assert(st.table_of(t2) == s3.table_of(t2));
            }
            assert(walk_step(*st, t3, i2) == Option::Some(t4)) by {
                assert(walk_step(s3, t3, i2) == Option::Some(t4));
                assert(st.table_of(t3) == s3.table_of(t3));
            }
            assert(st.table_of(t4).view()[i1 as int] == e);
            assert forall|k: usize| k < PAGE_SIZE implies #[trigger] translate_spec(
                *st,
                m0.spec_root(),
                (va + k) as usize,
            ) == (if flags & 1 != 0 {
                Option::Some(phys_addr.0 + k as int)
            } else {
                Option::None::<int>
            }) by {
                lemma_aligned_plus_offset(va, k);
                let w = (va + k) as usize;
                lemma_offset_within_page(va, k, w);
                assert(pml4_index_spec(w) == i4 && pdpt_index_spec(w) == i3 && pd_index_spec(w)
                    == i2 && pt_index_spec(w) == i1);
                assert(page_offset_spec(w) == k);
                if flags & 1 != 0 {
                    assert(translate_spec(*st, m0.spec_root(), w) == Option::Some(
                        phys_addr.0 + k as int,
                    ));
                } else {
                    assert(!entry_present(e.spec_raw()));
                    assert(translate_spec(*st, m0.spec_root(), w) is None);
                }
            }
            let rt = m0.spec_root();
            // The page was unmapped before the call: every level either had
            // its entry already, in which case nothing changed and the walk
            // ends at the non-present leaf, or the entry was absent and the
            // old walk ended there.
            assert(translate_spec(s0, rt, va) is None) by {
                let raw1 = s0.table_of(rt).view()[i4 as int].spec_raw();
                if entry_present(raw1) {
                    assert(s1 == s0 && t2 == entry_target(raw1));
                    let raw2 = s0.table_of(t2).view()[i3 as int].spec_raw();
                    if entry_present(raw2) {
                        assert(s2 == s1 && t3 == entry_target(raw2));
                        let raw3 = s0.table_of(t3).view()[i2 as int].spec_raw();
                        if entry_present(raw3) {
                            assert(s3 == s2 && t4 == entry_target(raw3));
                        }
                    }
                }
            }
            // Pages with any differing index keep their old translation:
            // the walk of such a page never reads the one leaf entry that
            // was written, because each table has a unique parent entry.
            assert forall|w: usize|
                !(pml4_index_spec(w) == i4 && pdpt_index_spec(w) == i3 && pd_index_spec(w) == i2
                    && pt_index_spec(w) == i1) implies #[trigger] translate_spec(*st, rt, w)
                == translate_spec(s0, rt, w) by {
                crate::memory::lemma_index_bounds(w);
                let j4 = pml4_index_spec(w);
                let j3 = pdpt_index_spec(w);
                let j2 = pd_index_spec(w);
                let j1 = pt_index_spec(w);
                assert(translate_spec(s3, rt, w) == translate_spec(s0, rt, w));
                assert(self.entry_ok(s3, rt, j4 as int)) by {
                    assert(m3.st_inv(s3));
                }
                assert(st.table_of(rt) == s3.table_of(rt));
                let raw1 = s3.table_of(rt).view()[j4 as int].spec_raw();
                if entry_present(raw1) {
                    let t2w = entry_target(raw1);
                    assert(self.spec_levels()[t2w] == 2 && self.spec_levels().dom().contains(
                        t2w,
                    )) by {
                        assert(m3.st_inv(s3));
                    }
                    assert(t2w != t4);
                    assert(st.table_of(t2w) == s3.table_of(t2w));
                    assert(m3.entry_ok(s3, t2w, j3 as int));
                    let raw2 = s3.table_of(t2w).view()[j3 as int].spec_raw();
                    if entry_present(raw2) {
                        let t3w = entry_target(raw2);
                        assert(self.spec_levels()[t3w] == 3
                            && self.spec_levels().dom().contains(t3w));
                        assert(t3w != t4);
                        assert(st.table_of(t3w) == s3.table_of(t3w));
                        assert(m3.entry_ok(s3, t3w, j2 as int));
                        let raw3 = s3.table_of(t3w).view()[j2 as int].spec_raw();
                        if entry_present(raw3) {
                            let t4w = entry_target(raw3);
                            assert(self.spec_levels()[t4w] == 4
                                && self.spec_levels().dom().contains(t4w));
                            if t4w == t4 && j1 == i1 {
                                // Unique parents force every index to match.
                                assert(m3.points_to(s3, t3w, j2 as int, t4));
                                assert(m3.points_to(s3, t3, i2 as int, t4));
                                assert(t3w == t3 && j2 == i2);
                                assert(m3.points_to(s3, t2w, j3 as int, t3));
                                assert(m3.points_to(s3, t2, i3 as int, t3));
                                assert(t2w == t2 && j3 == i3);
                                assert(m3.points_to(s3, rt, j4 as int, t2));
                                assert(m3.points_to(s3, rt, i4 as int, t2));
                                assert(j4 == i4);
                                assert(false);
                            } else {
                                if t4w == t4 {
                                    assert(st.table_of(t4w).view()[j1 as int] == s3.table_of(
                                        t4w,
                                    ).view()[j1 as int]);
                                } else {
                                    assert(st.table_of(t4w) == s3.table_of(t4w));
                                }
                            }
                        }
                    }
                }
            }
        }
        Result::Ok(())
    }

    /// Identity-map every page touching `[start, start + size)`: each
    /// page in the aligned cover is mapped to the frame at its own
    /// address. Mapping stops at the first per-page failure, whose error
    /// is returned; pages of the cover mapped before it stay mapped (no
    /// rollback), and every page outside the cover keeps its translation.
    #[verifier::rlimit(100)]
    pub fn identity_map_range(
        &mut self,
        start: PhysicalAddress,
        size: usize,
        flags: u64,
        allocator: &mut FrameAllocator,
        st: &mut TableStorage,
    ) -> (r: Result<(), MapperError>)
        requires
            old(self).inv(*old(st), *old(allocator)),
            flags_fit(flags),
            start.0 + size + PAGE_SIZE <= MAX_LOW_VADDR,
            start.0 + size + PAGE_SIZE <= usize::MAX,
        ensures
            final(self).inv(*final(st), *final(allocator)),
            final(self).spec_root() == old(self).spec_root(),
            final(allocator).spec_total() == old(allocator).spec_total(),
            final(allocator).spec_start() == old(allocator).spec_start(),
            forall|j: int|
                0 <= j < old(allocator).spec_total() && old(allocator).bit(j)
                    ==> final(allocator).bit(j),
            ({
                let sa = crate::memory::align_down_spec(start.0, PAGE_SIZE);
                let ea = crate::memory::align_up_spec(((start.0 + size) as usize), PAGE_SIZE);
                &&& forall|w: usize|
                    (w as u64) < MAX_LOW_VADDR && !(sa <= w < ea) ==> #[trigger] translate_spec(
                        *final(st),
                        old(self).spec_root(),
                        w,
                    ) == translate_spec(*old(st), old(self).spec_root(), w)
                &&& (r is Ok ==> identity_mapped_below(
                    *final(st),
                    old(self).spec_root(),
                    flags,
                    sa,
                    ea,
                ))
                &&& (r is Err ==> {
                    &&& r->Err_0 != MapperError::InvalidAddress
                    &&& r->Err_0 != MapperError::TableCreationFailed
                    &&& (r->Err_0 == MapperError::OutOfMemory ==> forall|j: int|
                        0 <= j < final(allocator).spec_total() ==> final(allocator).bit(j))
                    &&& exists|q: int|
                        {
                            &&& sa <= q < ea
                            &&& q % (PAGE_SIZE as int) == 0
                            &&& #[trigger] identity_mapped_below(
                                *final(st),
                                old(self).spec_root(),
                                flags,
                                sa,
                                q,
                            )
                            &&& (r->Err_0 == MapperError::PageAlreadyMapped ==> translate_spec(
                                *final(st),
                                old(self).spec_root(),
                                (q as usize),
                            ) is Some)
                            &&& (r->Err_0 == MapperError::OutOfMemory ==> translate_spec(
                                *final(st),
                                old(self).spec_root(),
                                (q as usize),
                            ) is None)
                        }
                })
            }),
    {
        proof {
            lemma_frame_size_pow2();
        }
        let start_aligned = start.align_down(PAGE_SIZE);
        let end = PhysicalAddress::new(start.as_usize() + size);
        let end_aligned = end.align_up(PAGE_SIZE);
        proof {
            crate::memory::lemma_align_round_trip(end.0, PAGE_SIZE);
            crate::memory::lemma_align_round_trip(start.0, PAGE_SIZE);
            crate::memory::lemma_align_up_mod(end.0, PAGE_SIZE);
        }
        let ghost s_init = *old(st);
        let ghost a_init = *old(allocator);
        let ghost rt = old(self).spec_root();
        let ghost sa = start_aligned.0 as int;
        let ghost ea = end_aligned.0 as int;
        let mut current = start_aligned;
        while current.as_usize() < end_aligned.as_usize()
            invariant
                self.inv(*st, *allocator),
                self.spec_root() == rt,
                rt == old(self).spec_root(),
                s_init == *old(st),
                a_init == *old(allocator),
                flags_fit(flags),
                sa == start_aligned.0,
                ea == end_aligned.0,
                sa == crate::memory::align_down_spec(start.0, PAGE_SIZE),
                ea == crate::memory::align_up_spec(((start.0 + size) as usize), PAGE_SIZE),
                start_aligned.0 % PAGE_SIZE == 0,
                start_aligned.0 <= current.0 <= end_aligned.0,
                current.0 % PAGE_SIZE == 0,
                end_aligned.0 % PAGE_SIZE == 0,
                (end_aligned.0 as u64) <= MAX_LOW_VADDR,
                allocator.spec_total() == a_init.spec_total(),
                allocator.spec_start() == a_init.spec_start(),
                forall|j: int|
                    0 <= j < a_init.spec_total() && a_init.bit(j) ==> allocator.bit(j),
                identity_mapped_below(*st, rt, flags, sa, current.0 as int),
                forall|w: usize|
                    (w as u64) < MAX_LOW_VADDR && !(sa <= w < current.0)
                        ==> #[trigger] translate_spec(*st, rt, w) == translate_spec(
                        s_init,
                        rt,
                        w,
                    ),
            decreases end_aligned.0 - current.0,
        {
            let ghost st_pre = *st;
            let ghost a_pre = *allocator;
            let virt = VirtualAddress::new(current.as_usize());
            proof {
                assert((current.0 as u64) < MAX_TABLE_ADDR);
            }
            match self.map_page(virt, current, flags, allocator, st) {
                Result::Ok(u) => {},
                Result::Err(e) => {
                    proof {
                        assert(current.0 % PAGE_SIZE == 0);
                        assert(e != MapperError::InvalidAddress);
                        // Pages outside the cover keep their translation:
                        // any page sharing the failing page's indices lies
                        // inside the cover, and every other page the call
                        // left alone.
                        assert forall|w: usize|
                            (w as u64) < MAX_LOW_VADDR && !(sa <= w < ea) implies
                            #[trigger] translate_spec(*st, rt, w) == translate_spec(
                            s_init,
                            rt,
                            w,
                        ) by {
                            if pml4_index_spec(w) == pml4_index_spec(current.0)
                                && pdpt_index_spec(w) == pdpt_index_spec(current.0)
                                && pd_index_spec(w) == pd_index_spec(current.0)
                                && pt_index_spec(w) == pt_index_spec(current.0) {
                                lemma_indices_determine_page(w, current.0);
                                assert(false);
                            } else {
                                assert(translate_spec(*st, rt, w) == translate_spec(
                                    st_pre,
                                    rt,
                                    w,
                                ));
                            }
                        }
                        // Pages below the failing one stay identity-mapped.
                        assert forall|p: usize|
                            sa <= p < current.0 && p % PAGE_SIZE == 0 implies
                            #[trigger] translate_spec(*st, rt, p) == (if flags & 1 != 0 {
                                Option::Some(p as int)
                            } else {
                                Option::None
                            }) by {
                            if pml4_index_spec(p) == pml4_index_spec(current.0)
                                && pdpt_index_spec(p) == pdpt_index_spec(current.0)
                                && pd_index_spec(p) == pd_index_spec(current.0)
                                && pt_index_spec(p) == pt_index_spec(current.0) {
                                lemma_indices_determine_page(p, current.0);
                                assert(false);
                            } else {
                                assert(translate_spec(*st, rt, p) == translate_spec(
                                    st_pre,
                                    rt,
                                    p,
                                ));
                            }
                        }
                        assert(identity_mapped_below(*st, rt, flags, sa, current.0 as int));
                        assert({
                            &&& sa <= current.0 < ea
                            &&& (current.0 as int) % (PAGE_SIZE as int) == 0
                            &&& identity_mapped_below(*st, rt, flags, sa, current.0 as int)
                            &&& (e == MapperError::PageAlreadyMapped ==> translate_spec(
                                *st,
                                rt,
                                ((current.0 as int) as usize),
                            ) is Some)
                            &&& (e == MapperError::OutOfMemory ==> translate_spec(
                                *st,
                                rt,
                                ((current.0 as int) as usize),
                            ) is None)
                        });
                    }
                    return Result::Err(e);
                },
            }
            proof {
                lemma_offset_within_page(current.0, 0, current.0);
                assert(translate_spec(*st, rt, ((current.0 + 0usize) as usize)) == (if flags & 1
                    != 0 {
                    Option::Some(current.0 + 0int)
                } else {
                    Option::None
                }));
                assert forall|p: usize|
                    sa <= p < current.0 + PAGE_SIZE && p % PAGE_SIZE == 0 implies
                    #[trigger] translate_spec(*st, rt, p) == (if flags & 1 != 0 {
                        Option::Some(p as int)
                    } else {
                        Option::None
                    }) by {
                    if p < current.0 {
                        if pml4_index_spec(p) == pml4_index_spec(current.0)
                            && pdpt_index_spec(p) == pdpt_index_spec(current.0)
                            && pd_index_spec(p) == pd_index_spec(current.0)
                            && pt_index_spec(p) == pt_index_spec(current.0) {
                            lemma_indices_determine_page(p, current.0);
                            assert(false);
                        } else {
                            assert(translate_spec(*st, rt, p) == translate_spec(st_pre, rt, p));
                        }
                    } else {
                        if p > current.0 {
                            let d2 = p - current.0;
                            vstd::arithmetic::div_mod::lemma_sub_mod_noop(
                                p as int,
                                current.0 as int,
                                PAGE_SIZE as int,
                            );
                            vstd::arithmetic::div_mod::lemma_small_mod(
                                d2 as nat,
                                PAGE_SIZE as nat,
                            );
                            assert(false);
                        }
                        assert(p == current.0);
                        assert(translate_spec(*st, rt, ((current.0 + 0usize) as usize))
                            == translate_spec(*st, rt, p));
                    }
                }
                assert forall|w: usize|
                    (w as u64) < MAX_LOW_VADDR && !(sa <= w < current.0 + PAGE_SIZE) implies
                    #[trigger] translate_spec(*st, rt, w) == translate_spec(s_init, rt, w) by {
                    if pml4_index_spec(w) == pml4_index_spec(current.0) && pdpt_index_spec(w)
                        == pdpt_index_spec(current.0) && pd_index_spec(w) == pd_index_spec(
                        current.0,
                    ) && pt_index_spec(w) == pt_index_spec(current.0) {
                        lemma_indices_determine_page(w, current.0);
                        assert(false);
                    } else {
                        assert(translate_spec(*st, rt, w) == translate_spec(st_pre, rt, w));
                    }
                }
            }
            proof {
                let d = end_aligned.0 - current.0;
                vstd::arithmetic::div_mod::lemma_sub_mod_noop(
                    end_aligned.0 as int,
                    current.0 as int,
                    PAGE_SIZE as int,
                );
                vstd::arithmetic::div_mod::lemma_mod_bound(d, PAGE_SIZE as int);
                if d < PAGE_SIZE {
                    vstd::arithmetic::div_mod::lemma_small_mod(d as nat, PAGE_SIZE as nat);
                }
                assert(d >= PAGE_SIZE);
                vstd::arithmetic::div_mod::lemma_add_mod_noop(
                    current.0 as int,
                    PAGE_SIZE as int,
                    PAGE_SIZE as int,
                );
                vstd::arithmetic::div_mod::lemma_mod_self_0(PAGE_SIZE as int);
            }
            current = PhysicalAddress::new(current.as_usize() + PAGE_SIZE);
        }
        Result::Ok(())
    }
}

} // verus!
