use aetherion::memory::frame_allocator::FrameAllocator;
use aetherion::memory::page_table::PageTableFlags;
use aetherion::memory::paging::{MapperError, PageMapper, TableStorage};
use aetherion::memory::{PhysicalAddress, VirtualAddress, FRAME_SIZE, PAGE_SIZE};

#[test]
fn test_mapper_error_types() {
    assert_eq!(MapperError::OutOfMemory, MapperError::OutOfMemory);
    assert_ne!(MapperError::OutOfMemory, MapperError::PageAlreadyMapped);
}

#[test]
fn test_pml4_address() {
    let addr = PhysicalAddress::new(0x1000);
    let mapper = PageMapper::new(addr);
    assert_eq!(mapper.pml4_address().as_usize(), 0x1000);
}

fn setup() -> (PageMapper, TableStorage, FrameAllocator) {
    // A root table outside the allocator's region, and frames at 1 MiB.
    let root = PhysicalAddress::new(0x8000);
    let mut storage = TableStorage::new();
    storage.create_table(root.as_usize());
    let allocator = FrameAllocator::new(
        PhysicalAddress::new(0x100000),
        64 * FRAME_SIZE,
        vec![0u8; 8],
    );
    (PageMapper::new(root), storage, allocator)
}

#[test]
fn test_map_and_translate() {
    let (mut mapper, mut storage, mut allocator) = setup();
    let virt = VirtualAddress::new(0x4000_0000_0000);
    let phys = PhysicalAddress::new(0x100000);
    let r = mapper.map_page(virt, phys, PageTableFlags::Present.bits(), &mut allocator, &mut storage);
    assert_eq!(r, Ok(()));
    // Three intermediate tables were created from the allocator.
    assert_eq!(allocator.allocated_frames(), 3);
    // The whole page translates with its offset.
    for k in [0usize, 1, 0x234, PAGE_SIZE - 1] {
        let t = mapper.translate(VirtualAddress::new(virt.as_usize() + k), &storage);
        assert_eq!(t.map(|p| p.as_usize()), Some(phys.as_usize() + k));
    }
    // A page next door is not mapped.
    let other = mapper.translate(VirtualAddress::new(virt.as_usize() + PAGE_SIZE), &storage);
    assert!(other.is_none());
}

#[test]
fn test_map_errors() {
    let (mut mapper, mut storage, mut allocator) = setup();
    let virt = VirtualAddress::new(0x4000_0000_0000);
    let phys = PhysicalAddress::new(0x100000);
    // Misaligned addresses are rejected.
    let r = mapper.map_page(
        VirtualAddress::new(0x123),
        phys,
        PageTableFlags::Present.bits(),
        &mut allocator,
        &mut storage,
    );
    assert_eq!(r, Err(MapperError::InvalidAddress));
    let r = mapper.map_page(
        virt,
        PhysicalAddress::new(0x123),
        PageTableFlags::Present.bits(),
        &mut allocator,
        &mut storage,
    );
    assert_eq!(r, Err(MapperError::InvalidAddress));
    // Mapping the same page twice is refused without overwriting.
    let f = PageTableFlags::Present.bits();
    assert_eq!(mapper.map_page(virt, phys, f, &mut allocator, &mut storage), Ok(()));
    let r = mapper.map_page(virt, PhysicalAddress::new(0x101000), f, &mut allocator, &mut storage);
    assert_eq!(r, Err(MapperError::PageAlreadyMapped));
    let t = mapper.translate(virt, &storage).map(|p| p.as_usize());
    assert_eq!(t, Some(phys.as_usize()));
}

#[test]
fn test_map_out_of_memory() {
    // An allocator with no frames cannot back the intermediate tables.
    let root = PhysicalAddress::new(0x8000);
    let mut storage = TableStorage::new();
    storage.create_table(root.as_usize());
    let mut mapper = PageMapper::new(root);
    let mut allocator = FrameAllocator::new(PhysicalAddress::new(0x100000), 0, vec![0u8; 1]);
    let r = mapper.map_page(
        VirtualAddress::new(0x1000),
        PhysicalAddress::new(0x2000),
        PageTableFlags::Present.bits(),
        &mut allocator,
        &mut storage,
    );
    assert_eq!(r, Err(MapperError::OutOfMemory));
}

#[test]
fn test_unmap() {
    let (mut mapper, mut storage, mut allocator) = setup();
    let virt = VirtualAddress::new(0x4000_0000_0000);
    let phys = PhysicalAddress::new(0x100000);
    let f = PageTableFlags::Present.bits();
    // Unmapping before any mapping reports an invalid address.
    assert_eq!(mapper.unmap_page(virt, &mut storage), Err(MapperError::InvalidAddress));
    assert_eq!(mapper.map_page(virt, phys, f, &mut allocator, &mut storage), Ok(()));
    // Unmapping returns the mapped frame and ends the translation.
    let r = mapper.unmap_page(virt, &mut storage);
    assert_eq!(r.map(|p| p.as_usize()), Ok(phys.as_usize()));
    assert!(mapper.translate(virt, &storage).is_none());
    // A misaligned unmap is rejected.
    assert_eq!(
        mapper.unmap_page(VirtualAddress::new(0x123), &mut storage),
        Err(MapperError::InvalidAddress)
    );
}

#[test]
fn test_identity_map_range() {
    let (mut mapper, mut storage, mut allocator) = setup();
    let f = PageTableFlags::Present.bits();
    let r = mapper.identity_map_range(
        PhysicalAddress::new(0x200000),
        2 * PAGE_SIZE,
        f,
        &mut allocator,
        &mut storage,
    );
    assert_eq!(r, Ok(()));
    for page in [0x200000usize, 0x201000] {
        let t = mapper.translate(VirtualAddress::new(page), &storage).map(|p| p.as_usize());
        assert_eq!(t, Some(page));
    }
}
