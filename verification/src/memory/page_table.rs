//! Hardware page-table structures: a 64-bit entry holding a frame-aligned
//! physical address (bits 12..51) and flag bits (bits 0..11 and 63), and a
//! 512-entry table of them.

use crate::memory::PhysicalAddress;
use vstd::prelude::*;

verus! {

/// Bits 12..51 of an entry hold the physical address.
pub const ENTRY_ADDR_MASK: u64 = 0x000F_FFFF_FFFF_F000;

/// Bits 0..11 of an entry hold the architectural flags.
pub const ENTRY_FLAGS_MASK: u64 = 0xFFF;

/// Number of entries in one table.
pub const TABLE_ENTRIES: usize = 512;

/// Architectural page-table entry flags, each one named bit.
#[derive(Debug, Clone, Copy, PartialEq, Eq, Structural)]
pub enum PageTableFlags {
    /// Page is present in memory (bit 0).
    Present,
    /// Page is writable (bit 1).
    Writable,
    /// Page is accessible from user mode (bit 2).
    UserAccessible,
    /// Write-through caching (bit 3).
    WriteThrough,
    /// Disable caching for this page (bit 4).
    NoCache,
    /// Set by the CPU when the page is accessed (bit 5).
    Accessed,
    /// Set by the CPU when the page is written to (bit 6).
    Dirty,
    /// Huge-page mapping (bit 7).
    HugePage,
    /// Not flushed from the translation cache on an address-space switch (bit 8).
    Global,
    /// Prevent instruction fetch from this page (bit 63).
    NoExecute,
}

impl PageTableFlags {
    /// The bit of the entry word that this flag occupies.
    pub open spec fn spec_bits(self) -> u64 {
        match self {
            PageTableFlags::Present => 0x1,
            PageTableFlags::Writable => 0x2,
            PageTableFlags::UserAccessible => 0x4,
            PageTableFlags::WriteThrough => 0x8,
            PageTableFlags::NoCache => 0x10,
            PageTableFlags::Accessed => 0x20,
            PageTableFlags::Dirty => 0x40,
            PageTableFlags::HugePage => 0x80,
            PageTableFlags::Global => 0x100,
            PageTableFlags::NoExecute => 0x8000_0000_0000_0000,
        }
    }

    /// The bit of the entry word that this flag occupies.
    #[verifier::when_used_as_spec(spec_bits)]
    pub fn bits(self) -> (r: u64)
        ensures
            r == self.spec_bits(),
    {
        match self {
            PageTableFlags::Present => 0x1,
            PageTableFlags::Writable => 0x2,
            PageTableFlags::UserAccessible => 0x4,
            PageTableFlags::WriteThrough => 0x8,
            PageTableFlags::NoCache => 0x10,
            PageTableFlags::Accessed => 0x20,
            PageTableFlags::Dirty => 0x40,
            PageTableFlags::HugePage => 0x80,
            PageTableFlags::Global => 0x100,
            PageTableFlags::NoExecute => 0x8000_0000_0000_0000,
        }
    }
}

/// One 64-bit page-table entry.
#[derive(Debug, Clone, Copy)]
pub struct PageTableEntry {
    entry: u64,
}

impl PageTableEntry {
    /// The raw 64-bit word.
    pub closed spec fn spec_raw(self) -> u64 {
        self.entry
    }

    /// The physical-address field of a raw entry word.
    pub open spec fn spec_address_of(raw: u64) -> u64 {
        raw & ENTRY_ADDR_MASK
    }

    /// Whether `flag` is set in a raw entry word.
    pub open spec fn spec_flag_of(raw: u64, flag: PageTableFlags) -> bool {
        raw & flag.spec_bits() != 0
    }

    /// Create a new empty (non-present) entry.
    pub fn new() -> (r: Self)
        ensures
            r.spec_raw() == 0,
    {
        PageTableEntry { entry: 0 }
    }

    /// Create an entry holding `addr` and `flags`.
    pub fn new_with_address(addr: PhysicalAddress, flags: u64) -> (r: Self)
        ensures
            r.spec_raw() == ((addr.0 as u64) & ENTRY_ADDR_MASK) | flags,
    {
        let mut entry = PageTableEntry::new();
        entry.set_address(addr, flags);
        entry
    }

    /// Store `addr` and `flags` in the entry: the address is masked to its
    /// field, the flag bits are or-ed in, and nothing of the old entry is
    /// kept.
    pub fn set_address(&mut self, addr: PhysicalAddress, flags: u64)
        ensures
            final(self).spec_raw() == ((addr.0 as u64) & ENTRY_ADDR_MASK) | flags,
    {
        self.entry = ((addr.as_usize() as u64) & ENTRY_ADDR_MASK) | flags;
    }

    /// Get the physical address stored in the entry.
    pub fn physical_address(&self) -> (r: PhysicalAddress)
        ensures
            r.0 == Self::spec_address_of(self.spec_raw()) as usize,
    {
        PhysicalAddress::new((self.entry & ENTRY_ADDR_MASK) as usize)
    }

    /// Check whether one flag is set.
    fn has_flag(&self, flag: PageTableFlags) -> (r: bool)
        ensures
            r == Self::spec_flag_of(self.spec_raw(), flag),
    {
        (self.entry & flag.bits()) != 0
    }

    /// Check whether the present flag is set.
    pub fn is_present(&self) -> (r: bool)
        ensures
            r == Self::spec_flag_of(self.spec_raw(), PageTableFlags::Present),
    {
        self.has_flag(PageTableFlags::Present)
    }

    /// Check whether the writable flag is set.
    pub fn is_writable(&self) -> (r: bool)
        ensures
            r == Self::spec_flag_of(self.spec_raw(), PageTableFlags::Writable),
    {
        self.has_flag(PageTableFlags::Writable)
    }

    /// Check whether the user-accessible flag is set.
    pub fn is_user_accessible(&self) -> (r: bool)
        ensures
            r == Self::spec_flag_of(self.spec_raw(), PageTableFlags::UserAccessible),
    {
        self.has_flag(PageTableFlags::UserAccessible)
    }

    /// Check whether the huge-page flag is set.
    pub fn is_huge_page(&self) -> (r: bool)
        ensures
            r == Self::spec_flag_of(self.spec_raw(), PageTableFlags::HugePage),
    {
        self.has_flag(PageTableFlags::HugePage)
    }

    /// Check whether the no-execute flag is set.
    pub fn is_no_execute(&self) -> (r: bool)
        ensures
            r == Self::spec_flag_of(self.spec_raw(), PageTableFlags::NoExecute),
    {
        self.has_flag(PageTableFlags::NoExecute)
    }

    /// Set or clear the present flag, leaving all other bits alone.
    pub fn set_present(&mut self, present: bool)
        ensures
            final(self).spec_raw() == if present {
                old(self).spec_raw() | PageTableFlags::Present.spec_bits()
            } else {
                old(self).spec_raw() & !PageTableFlags::Present.spec_bits()
            },
    {
        if present {
            self.entry = self.entry | PageTableFlags::Present.bits();
        } else {
            self.entry = self.entry & !PageTableFlags::Present.bits();
        }
    }

    /// Set or clear the writable flag, leaving all other bits alone.
    pub fn set_writable(&mut self, writable: bool)
        ensures
            final(self).spec_raw() == if writable {
                old(self).spec_raw() | PageTableFlags::Writable.spec_bits()
            } else {
                old(self).spec_raw() & !PageTableFlags::Writable.spec_bits()
            },
    {
        if writable {
            self.entry = self.entry | PageTableFlags::Writable.bits();
        } else {
            self.entry = self.entry & !PageTableFlags::Writable.bits();
        }
    }

    /// Get the flag bits (bits 0..11) of the entry.
    pub fn flags(&self) -> (r: u64)
        ensures
            r == self.spec_raw() & ENTRY_FLAGS_MASK,
    {
        self.entry & ENTRY_FLAGS_MASK
    }

    /// Zero the entry, marking it not present.
    pub fn clear(&mut self)
        ensures
            final(self).spec_raw() == 0,
    {
        self.entry = 0;
    }

    /// Get the raw entry word.
    pub fn raw(&self) -> (r: u64)
        ensures
            r == self.spec_raw(),
    {
        self.entry
    }
}

/// One translation table: 512 entries filling exactly one frame.
///
/// The hardware additionally demands that a live table sit at a
/// frame-aligned physical address. That placement is the obligation of
/// whatever copies a table into real memory (the storage adapter outside
/// this library); no alignment attribute expresses it here.
pub struct PageTable {
    entries: [PageTableEntry; 512],
}

impl PageTable {
    /// The entries as a sequence.
    pub closed spec fn view(self) -> Seq<PageTableEntry> {
        self.entries@
    }

    /// A table always holds exactly 512 entries.
    pub open spec fn wf(self) -> bool {
        self.view().len() == TABLE_ENTRIES
    }

    /// Every entry of the table is zero (not present).
    pub open spec fn all_clear(self) -> bool {
        forall|i: int| 0 <= i < self.view().len() ==> (#[trigger] self.view()[i]).spec_raw() == 0
    }

    /// Create a new empty table: 512 entries, all non-present.
    pub fn new() -> (r: Self)
        ensures
            r.wf(),
            r.all_clear(),
    {
        let entries = [PageTableEntry::new();512];
        PageTable { entries }
    }

    /// Zero out all entries.
    pub fn zero(&mut self)
        requires
            old(self).wf(),
        ensures
            final(self).wf(),
            final(self).all_clear(),
    {
        let mut i: usize = 0;
        while i < TABLE_ENTRIES
            invariant
                self@.len() == TABLE_ENTRIES,
                i <= TABLE_ENTRIES,
                forall|k: int| 0 <= k < i ==> (#[trigger] self@[k]).spec_raw() == 0,
            decreases TABLE_ENTRIES - i,
        {
            let mut e = self.entries[i];
            e.clear();
            self.entries[i] = e;
            i = i + 1;
        }
    }

    /// Clear all entries, marking each as not present.
    pub fn clear_all(&mut self)
        requires
            old(self).wf(),
        ensures
            final(self).wf(),
            final(self).all_clear(),
    {
        self.zero()
    }

    /// Get a reference to the entry at `index`.
    pub fn entry(&self, index: usize) -> (r: &PageTableEntry)
        requires
            self.wf(),
            index < TABLE_ENTRIES,
        ensures
            *r == self.view()[index as int],
    {
        &self.entries[index]
    }

    /// Get a mutable reference to the entry at `index`.
    pub fn entry_mut(&mut self, index: usize) -> (r: &mut PageTableEntry)
        requires
            old(self).wf(),
            index < TABLE_ENTRIES,
        ensures
            *r == old(self).view()[index as int],
            final(self).view() == old(self).view().update(index as int, *final(r)),
            final(self).wf(),
    {
        &mut self.entries[index]
    }

    /// Replace the entry at `index`.
    pub fn set_entry(&mut self, index: usize, e: PageTableEntry)
        requires
            old(self).wf(),
            index < TABLE_ENTRIES,
        ensures
            final(self).wf(),
            final(self).view() == old(self).view().update(index as int, e),
    {
        self.entries[index] = e;
    }

    /// How many entries below `n` have the present flag set.
    pub open spec fn num_present(self, n: int) -> int
        decreases n,
    {
        if n <= 0 {
            0
        } else {
            self.num_present(n - 1) + if PageTableEntry::spec_flag_of(
                self.view()[n - 1].spec_raw(),
                PageTableFlags::Present,
            ) {
                1int
            } else {
                0int
            }
        }
    }

    /// Count the entries with the present flag set.
    pub fn present_count(&self) -> (r: usize)
        requires
            self.wf(),
        ensures
            r == self.num_present(TABLE_ENTRIES as int),
    {
        let mut count: usize = 0;
        let mut i: usize = 0;
        while i < TABLE_ENTRIES
            invariant
                self.wf(),
                i <= TABLE_ENTRIES,
                count == self.num_present(i as int),
                count <= i,
            decreases TABLE_ENTRIES - i,
        {
            if self.entries[i].is_present() {
                count = count + 1;
            }
            i = i + 1;
        }
        count
    }
}

} // verus!
