use aetherion::memory::{PhysicalAddress, VirtualAddress};

#[test]
fn test_physical_address_alignment() {
    let addr = PhysicalAddress::new(0x1234);
    assert_eq!(addr.align_down(0x1000).as_usize(), 0x1000);
    assert_eq!(addr.align_up(0x1000).as_usize(), 0x2000);
}

#[test]
fn test_virtual_address_indices() {
    // Address: 0xFFFF_8000_0040_1234
    // PML4 = 256, PDPT = 0, PD = 2, PT = 1, Offset = 0x234
    let addr = VirtualAddress::new(0xFFFF_8000_0040_1234);
    assert_eq!(addr.pml4_index(), 256);
    assert_eq!(addr.pdpt_index(), 0);
    assert_eq!(addr.pd_index(), 2);
    assert_eq!(addr.pt_index(), 1);
    assert_eq!(addr.page_offset(), 0x234);
}

#[test]
fn test_alignment_round_trip() {
    for &(x, n) in &[(0usize, 8usize), (1, 8), (4095, 4096), (4096, 4096), (0x1234, 16)] {
        let p = PhysicalAddress::new(x);
        let up = p.align_up(n).as_usize();
        let down = p.align_down(n).as_usize();
        assert_eq!(PhysicalAddress::new(up).align_down(n).as_usize(), up);
        assert!(down <= x && x <= up);
        assert_eq!(up % n, 0);
        assert_eq!(down % n, 0);
    }
    let v = VirtualAddress::new(0x1234);
    assert_eq!(v.align_down(0x1000).as_usize(), 0x1000);
    assert_eq!(v.align_up(0x1000).as_usize(), 0x2000);
    assert_eq!(v.is_aligned(2), true);
    assert_eq!(PhysicalAddress::new(0x1000).offset(0x34).as_usize(), 0x1034);
}
