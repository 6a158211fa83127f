use aetherion::memory::page_table::{PageTable, PageTableEntry, PageTableFlags};
use aetherion::memory::PhysicalAddress;

#[test]
fn test_page_table_entry_flags() {
    let mut entry = PageTableEntry::new();
    assert!(!entry.is_present());

    entry.set_present(true);
    assert!(entry.is_present());

    entry.set_writable(true);
    assert!(entry.is_writable());
    assert!(entry.is_present());
}

#[test]
fn test_page_table_entry_address() {
    let addr = PhysicalAddress::new(0x1000);
    let flags = PageTableFlags::Present.bits() | PageTableFlags::Writable.bits();

    let entry = PageTableEntry::new_with_address(addr, flags);

    assert_eq!(entry.physical_address().as_usize(), 0x1000);
    assert!(entry.is_present());
    assert!(entry.is_writable());
}

#[test]
fn test_page_table_indexing() {
    let mut table = PageTable::new();

    let addr = PhysicalAddress::new(0x5000);
    let flags = PageTableFlags::Present.bits();

    let e = table.entry_mut(10);
    e.set_address(addr, flags);

    assert!(table.entry(10).is_present());
    assert_eq!(table.entry(10).physical_address().as_usize(), 0x5000);
    assert!(!table.entry(11).is_present());
}

#[test]
fn test_page_table_clear_all() {
    let mut table = PageTable::new();

    // Set some entries
    for i in 0..10 {
        let addr = PhysicalAddress::new(0x1000 * i);
        table.entry_mut(i).set_address(addr, PageTableFlags::Present.bits());
    }

    assert_eq!(table.present_count(), 10);

    table.clear_all();
    assert_eq!(table.present_count(), 0);
}

#[test]
fn test_huge_page_flag() {
    let mut entry = PageTableEntry::new();
    let addr = PhysicalAddress::new(0x200000); // 2MB aligned

    let flags = PageTableFlags::Present.bits() | PageTableFlags::HugePage.bits();

    entry.set_address(addr, flags);

    assert!(entry.is_present());
    assert!(entry.is_huge_page());
}

#[test]
fn test_no_execute_flag() {
    let mut entry = PageTableEntry::new();
    let addr = PhysicalAddress::new(0x1000);

    let flags = PageTableFlags::Present.bits() | PageTableFlags::NoExecute.bits();

    entry.set_address(addr, flags);

    assert!(entry.is_present());
    assert!(entry.is_no_execute());
}

#[test]
fn test_entry_field_encoding() {
    // The address field masks out flag bits and bits above 51; flags are
    // or-ed in, and set_address does not merge with previous flags.
    let mut entry = PageTableEntry::new_with_address(
        PhysicalAddress::new(0x3000),
        PageTableFlags::Present.bits() | PageTableFlags::Global.bits(),
    );
    assert_eq!(entry.flags(), 0x101);
    assert_eq!(entry.raw(), 0x3101);
    entry.set_address(PhysicalAddress::new(0x4000), 0);
    assert!(!entry.is_present());
    assert_eq!(entry.physical_address().as_usize(), 0x4000);
    entry.clear();
    assert_eq!(entry.raw(), 0);
    let zeroed = PageTable::new();
    assert_eq!(zeroed.present_count(), 0);
    let mut t2 = PageTable::new();
    t2.set_entry(7, PageTableEntry::new_with_address(
        PhysicalAddress::new(0x8000),
        PageTableFlags::Present.bits(),
    ));
    assert!(t2.entry(7).is_present());
    assert!(!t2.entry(7).is_user_accessible());
    t2.zero();
    assert_eq!(t2.present_count(), 0);
}

#[test]
fn test_page_table_size() {
    // Page table must be exactly 4096 bytes
    assert_eq!(core::mem::size_of::<PageTable>(), 4096);
    assert_eq!(core::mem::size_of::<PageTableEntry>(), 8);
}
