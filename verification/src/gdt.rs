//! Global descriptor table: the five segment descriptors a flat 64-bit
//! address space needs, with their access and granularity encodings.

use vstd::prelude::*;

verus! {

/// One segment descriptor, in its packed field order.
#[derive(Debug, Clone, Copy, PartialEq, Eq, Structural)]
struct GdtEntry {
    limit_low: u16,
    base_low: u16,
    base_middle: u8,
    access: u8,
    granularity: u8,
    base_high: u8,
}

impl GdtEntry {
    /// The all-zero null descriptor.
    fn null() -> (r: Self)
        ensures
            r.access == 0u8,
    {
        GdtEntry {
            limit_low: 0,
            base_low: 0,
            base_middle: 0,
            access: 0,
            granularity: 0,
            base_high: 0,
        }
    }

    /// Pack base, limit, access and flag bits into a descriptor.
    fn new(base: u32, limit: u32, access: u8, flags: u8) -> (r: Self)
        ensures
            r.limit_low == (limit & 0xFFFF) as u16,
            r.base_low == (base & 0xFFFF) as u16,
            r.base_middle == ((base >> 16) & 0xFF) as u8,
            r.access == access,
            r.granularity == (((limit >> 16) & 0x0F) | ((flags & 0xF0) as u32)) as u8,
            r.base_high == ((base >> 24) & 0xFF) as u8,
    {
        proof {
            lemma_gdt_fields(base, limit, flags);
        }
        GdtEntry {
            limit_low: (limit & 0xFFFF) as u16,
            base_low: (base & 0xFFFF) as u16,
            base_middle: ((base >> 16) & 0xFF) as u8,
            access,
            granularity: (((limit >> 16) & 0x0F) | ((flags as u32) & 0xF0)) as u8,
            base_high: ((base >> 24) & 0xFF) as u8,
        }
    }

    /// Kernel code segment: present, ring 0, executable, readable; long
    /// mode.
    fn code_segment() -> (r: Self)
        ensures
            r.access == 0x9Au8,
    {
        Self::new(0, 0xFFFFF, 0x9A, 0xA0)
    }

    /// Kernel data segment: present, ring 0, writable.
    fn data_segment() -> (r: Self)
        ensures
            r.access == 0x92u8,
    {
        Self::new(0, 0xFFFFF, 0x92, 0xC0)
    }

    /// User code segment: present, ring 3, executable, readable.
    fn user_code_segment() -> (r: Self)
        ensures
            r.access == 0xFAu8,
    {
        Self::new(0, 0xFFFFF, 0xFA, 0xA0)
    }

    /// User data segment: present, ring 3, writable.
    fn user_data_segment() -> (r: Self)
        ensures
            r.access == 0xF2u8,
    {
        Self::new(0, 0xFFFFF, 0xF2, 0xC0)
    }
}

/// The masked descriptor fields always fit their packed slots, and the
/// granularity byte composes from disjoint nibbles.
proof fn lemma_gdt_fields(base: u32, limit: u32, flags: u8)
    by (bit_vector)
    ensures
        base & 0xFFFF <= 0xFFFF,
        (base >> 16) & 0xFF <= 0xFF,
        (base >> 24) & 0xFF <= 0xFF,
        limit & 0xFFFF <= 0xFFFF,
        ((limit >> 16) & 0x0F) | ((flags as u32) & 0xF0) <= 0xFF,
        ((limit >> 16) & 0x0F) | ((flags as u32) & 0xF0) == ((limit >> 16) & 0x0F) | ((flags
            & 0xF0) as u32),
{
}

/// The global descriptor table: null, kernel code, kernel data, user
/// data, user code.
pub struct Gdt {
    entries: [GdtEntry; 5],
}

impl Gdt {
    /// The descriptors in selector order.
    spec fn view(self) -> Seq<GdtEntry> {
        self.entries@
    }

    /// Number of descriptors in the table.
    pub closed spec fn spec_len(self) -> int {
        self.entries@.len() as int
    }

    /// Build the five-descriptor flat table.
    pub fn new() -> (r: Self)
        ensures
            r.spec_len() == 5,
    {
        let entries = [
            GdtEntry::null(),
            GdtEntry::code_segment(),
            GdtEntry::data_segment(),
            GdtEntry::user_data_segment(),
            GdtEntry::user_code_segment(),
        ];
        Gdt { entries }
    }

    /// Number of descriptors in the table.
    pub fn entry_count(&self) -> (r: usize)
        ensures
            r == self.spec_len(),
    {
        self.entries.len()
    }
}

} // verus!
