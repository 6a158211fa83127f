//! Interrupt descriptor table: 256 handler descriptors, each splitting a
//! handler address across three offset fields.

use vstd::prelude::*;

verus! {

/// Number of handler descriptors in the table.
pub const IDT_ENTRIES: usize = 256;

/// One handler descriptor, in its packed field order.
#[derive(Debug, Clone, Copy, PartialEq, Eq, Structural)]
pub struct IdtEntry {
    offset_low: u16,
    selector: u16,
    ist: u8,
    flags: u8,
    offset_mid: u16,
    offset_high: u32,
    reserved: u32,
}

impl IdtEntry {
    /// Bits 0..15 of the handler address.
    pub closed spec fn spec_offset_low(self) -> u16 {
        self.offset_low
    }

    /// Bits 16..31 of the handler address.
    pub closed spec fn spec_offset_mid(self) -> u16 {
        self.offset_mid
    }

    /// Bits 32..63 of the handler address.
    pub closed spec fn spec_offset_high(self) -> u32 {
        self.offset_high
    }

    /// The code-segment selector the handler runs in.
    pub closed spec fn spec_selector(self) -> u16 {
        self.selector
    }

    /// The descriptor's flag byte.
    pub closed spec fn spec_flags(self) -> u8 {
        self.flags
    }

    /// Create an empty descriptor.
    pub fn new() -> (r: Self)
        ensures
            r.spec_offset_low() == 0u16,
            r.spec_offset_mid() == 0u16,
            r.spec_offset_high() == 0u32,
            r.spec_flags() == 0u8,
    {
        IdtEntry {
            offset_low: 0,
            selector: 0,
            ist: 0,
            flags: 0,
            offset_mid: 0,
            offset_high: 0,
            reserved: 0,
        }
    }

    /// Point the descriptor at `handler`: split the address across the
    /// three offset fields and mark it present, ring 0, interrupt type,
    /// in the kernel code segment.
    pub fn set_handler(&mut self, handler: usize)
        ensures
            final(self).spec_offset_low() == ((handler as u64) & 0xFFFF) as u16,
            final(self).spec_offset_mid() == (((handler as u64) >> 16) & 0xFFFF) as u16,
            final(self).spec_offset_high() == (((handler as u64) >> 32) & 0xFFFF_FFFF) as u32,
            final(self).spec_selector() == 0x08u16,
            final(self).spec_flags() == 0x8Eu8,
    {
        let h = handler as u64;
        proof {
            lemma_idt_fields(h);
        }
        self.offset_low = (h & 0xFFFF) as u16;
        self.offset_mid = ((h >> 16) & 0xFFFF) as u16;
        self.offset_high = ((h >> 32) & 0xFFFFFFFF) as u32;
        self.selector = 0x08;
        self.flags = 0x8E;
    }
}

/// The masked handler-address pieces fit their packed fields.
proof fn lemma_idt_fields(h: u64)
    by (bit_vector)
    ensures
        h & 0xFFFF <= 0xFFFF,
        (h >> 16) & 0xFFFF <= 0xFFFF,
        (h >> 32) & 0xFFFF_FFFF <= 0xFFFF_FFFF,
{
}

/// The interrupt descriptor table: one descriptor per vector.
pub struct Idt {
    entries: [IdtEntry; 256],
}

/// The conventional alias for the table.
pub type InterruptDescriptorTable = Idt;

impl Idt {
    /// The descriptors by vector.
    pub closed spec fn view(self) -> Seq<IdtEntry> {
        self.entries@
    }

    /// The table always holds every vector's descriptor.
    pub open spec fn wf(self) -> bool {
        self.view().len() == IDT_ENTRIES
    }

    /// Create a table of empty descriptors.
    pub fn new() -> (r: Self)
        ensures
            r.wf(),
            forall|k: int|
                0 <= k < IDT_ENTRIES ==> (#[trigger] r.view()[k]).spec_flags() == 0u8,
    {
        let entries = [IdtEntry::new();256];
        Idt { entries }
    }

    /// Get the descriptor for vector `index`.
    pub fn entry(&self, index: u8) -> (r: IdtEntry)
        requires
            self.wf(),
        ensures
            r == self.view()[index as int],
    {
        self.entries[index as usize]
    }

    /// Point vector `index` at `handler`, leaving every other vector alone.
    pub fn set_handler(&mut self, index: u8, handler: usize)
        requires
            old(self).wf(),
        ensures
            final(self).wf(),
            final(self).view()[index as int].spec_flags() == 0x8Eu8,
            final(self).view()[index as int].spec_selector() == 0x08u16,
            final(self).view()[index as int].spec_offset_low() == ((handler as u64)
                & 0xFFFF) as u16,
            forall|k: int|
                0 <= k < IDT_ENTRIES && k != index ==> final(self).view()[k] == old(self).view()[k],
    {
        let mut e = self.entries[index as usize];
        e.set_handler(handler);
        self.entries[index as usize] = e;
    }
}

} // verus!
