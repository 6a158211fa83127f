use aetherion::memory::bitmap::Bitmap;

#[test]
fn test_bitmap_set_clear() {
    let buf = vec![0u8; 16];
    let mut bitmap = Bitmap::new(buf, 128);

    // Initially all clear
    assert!(!bitmap.is_set(0));
    assert!(!bitmap.is_set(50));

    // Set some bits
    bitmap.set(0);
    bitmap.set(50);
    bitmap.set(127);

    assert!(bitmap.is_set(0));
    assert!(bitmap.is_set(50));
    assert!(bitmap.is_set(127));
    assert!(!bitmap.is_set(1));

    // Clear bits
    bitmap.clear(50);
    assert!(!bitmap.is_set(50));
}

#[test]
fn test_find_first_clear() {
    let buf = vec![0u8; 16];
    let mut bitmap = Bitmap::new(buf, 128);

    // First clear should be 0
    assert_eq!(bitmap.find_first_clear(), Some(0));

    // Allocate first 10 frames
    for i in 0..10 {
        bitmap.set(i);
    }

    // First clear should be 10
    assert_eq!(bitmap.find_first_clear(), Some(10));
}

#[test]
fn test_find_consecutive_clear() {
    let buf = vec![0u8; 16];
    let mut bitmap = Bitmap::new(buf, 128);

    // Allocate frames 0-9 and 15-19
    for i in 0..10 {
        bitmap.set(i);
    }
    for i in 15..20 {
        bitmap.set(i);
    }

    // Should find 4 consecutive at index 10
    assert_eq!(bitmap.find_consecutive_clear(4), Some(10));

    // Should find 5 consecutive at index 10
    assert_eq!(bitmap.find_consecutive_clear(5), Some(10));

    // Should NOT find 6 consecutive (only 5 available: 10-14)
    assert_eq!(bitmap.find_consecutive_clear(6), Some(20));
}

#[test]
fn test_count_free() {
    let buf = vec![0u8; 16];
    let mut bitmap = Bitmap::new(buf, 128);

    assert_eq!(bitmap.count_free(), 128);
    assert_eq!(bitmap.count_allocated(), 0);

    // Allocate 10 frames
    for i in 0..10 {
        bitmap.set(i);
    }

    assert_eq!(bitmap.count_free(), 118);
    assert_eq!(bitmap.count_allocated(), 10);
}

#[test]
fn test_counts_always_partition() {
    let buf = vec![0u8; 4];
    let mut bitmap = Bitmap::new(buf, 30);
    assert_eq!(bitmap.count_free() + bitmap.count_allocated(), 30);
    bitmap.set(3);
    bitmap.set(17);
    bitmap.set(29);
    assert_eq!(bitmap.count_free() + bitmap.count_allocated(), 30);
    bitmap.clear(17);
    bitmap.clear(17);
    assert_eq!(bitmap.count_free() + bitmap.count_allocated(), 30);
}

#[test]
fn test_out_of_range_queries() {
    let buf = vec![0u8; 2];
    let mut bitmap = Bitmap::new(buf, 10);
    // Out-of-range mutations are silent no-ops and queries read false.
    bitmap.set(10);
    assert!(!bitmap.is_set(10));
    assert_eq!(bitmap.size(), 10);
    for i in 0..10 {
        bitmap.set(i);
    }
    // Every tracked bit set: no clear bit exists.
    assert_eq!(bitmap.find_first_clear(), None);
    assert_eq!(bitmap.find_consecutive_clear(1), None);
    // A zero-length run is never found.
    assert_eq!(bitmap.find_consecutive_clear(0), None);
}
