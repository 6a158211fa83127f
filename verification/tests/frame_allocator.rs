use aetherion::memory::frame_allocator::FrameAllocator;
use aetherion::memory::{PhysicalAddress, FRAME_SIZE};

#[test]
fn test_allocate_single_frame() {
    let buf = vec![0u8; 128];
    let mut allocator = FrameAllocator::new(PhysicalAddress::new(0x100000), 1024 * FRAME_SIZE, buf);

    // Allocate first frame
    let frame1 = allocator.allocate_frame();
    assert!(frame1.is_some());
    assert_eq!(frame1.unwrap().as_usize(), 0x100000);
    assert_eq!(allocator.allocated_frames(), 1);

    // Allocate second frame
    let frame2 = allocator.allocate_frame();
    assert!(frame2.is_some());
    assert_eq!(frame2.unwrap().as_usize(), 0x100000 + FRAME_SIZE);
    assert_eq!(allocator.allocated_frames(), 2);
}

#[test]
fn test_deallocate_frame() {
    let buf = vec![0u8; 128];
    let mut allocator = FrameAllocator::new(PhysicalAddress::new(0x100000), 1024 * FRAME_SIZE, buf);

    let frame = allocator.allocate_frame().unwrap();
    assert_eq!(allocator.allocated_frames(), 1);

    allocator.deallocate_frame(frame);
    assert_eq!(allocator.allocated_frames(), 0);

    // Should be able to allocate same frame again
    let frame2 = allocator.allocate_frame().unwrap();
    assert_eq!(frame.as_usize(), frame2.as_usize());
}

#[test]
fn test_allocate_multiple_frames() {
    let buf = vec![0u8; 128];
    let mut allocator = FrameAllocator::new(PhysicalAddress::new(0x100000), 1024 * FRAME_SIZE, buf);

    // Allocate 10 consecutive frames
    let frames = allocator.allocate_frames(10);
    assert!(frames.is_some());
    assert_eq!(allocator.allocated_frames(), 10);

    // Deallocate them
    allocator.deallocate_frames(frames.unwrap(), 10);
    assert_eq!(allocator.allocated_frames(), 0);
}

#[test]
fn test_memory_stats() {
    let buf = vec![0u8; 128];
    let mut allocator = FrameAllocator::new(PhysicalAddress::new(0x100000), 1024 * FRAME_SIZE, buf);

    assert_eq!(allocator.total_frames(), 1024);
    assert_eq!(allocator.total_memory(), 1024 * FRAME_SIZE);
    assert_eq!(allocator.free_frames(), 1024);
    assert_eq!(allocator.usage_percent(), 0);

    // Allocate 50% of frames
    for _ in 0..512 {
        allocator.allocate_frame();
    }

    assert_eq!(allocator.usage_percent(), 50);
    assert_eq!(allocator.free_frames(), 512);
}

#[test]
fn frame_allocator_test_out_of_memory() {
    let buf = vec![0u8; 2]; // Only 16 frames
    let mut allocator = FrameAllocator::new(PhysicalAddress::new(0x100000), 16 * FRAME_SIZE, buf);

    // Allocate all frames
    for _ in 0..16 {
        assert!(allocator.allocate_frame().is_some());
    }

    // 17th allocation should fail
    assert!(allocator.allocate_frame().is_none());
}

#[test]
fn test_zero_count_and_stats() {
    let buf = vec![0u8; 2];
    let mut allocator = FrameAllocator::new(PhysicalAddress::new(0x100000), 16 * FRAME_SIZE, buf);
    // A zero-frame request always fails.
    assert!(allocator.allocate_frames(0).is_none());
    // Double free is a silent no-op.
    let f = allocator.allocate_frame().unwrap();
    allocator.deallocate_frame(f);
    allocator.deallocate_frame(f);
    assert_eq!(allocator.allocated_frames(), 0);
    // Out-of-region frees change nothing.
    allocator.deallocate_frame(PhysicalAddress::new(0x50));
    assert_eq!(allocator.allocated_frames(), 0);
    assert!(!allocator.is_allocated(PhysicalAddress::new(0x100000)));
    let g = allocator.allocate_frame().unwrap();
    assert!(allocator.is_allocated(g));
    assert_eq!(allocator.free_memory(), 15 * FRAME_SIZE);
    assert_eq!(allocator.allocated_memory(), FRAME_SIZE);
}
