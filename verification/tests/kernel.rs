use conquer_pointer::kernel;

#[test]
fn mark_mask_values() {
    assert_eq!(kernel::mark_mask(0), 0);
    assert_eq!(kernel::mark_mask(1), 0b1);
    assert_eq!(kernel::mark_mask(2), 0b11);
    assert_eq!(kernel::mark_mask(3), 0b111);
}

#[test]
fn compose_clears_and_truncates() {
    assert_eq!(kernel::compose(0x1000, 0b11, 2), 0x1003);
    assert_eq!(kernel::compose(0x1000, 0b101, 2), 0x1001);
    assert_eq!(kernel::compose(0x1003, 0, 2), 0x1000);
}

#[test]
fn decompose_splits() {
    assert_eq!(kernel::decompose(0x1003, 2), (0x1000, 0b11));
    assert_eq!(kernel::decompose_ptr(0x1003, 2), 0x1000);
    assert_eq!(kernel::decompose_tag(0x1003, 2), 0b11);
    assert_eq!(kernel::decompose(0b11, 2), (0, 0b11));
}

#[test]
fn round_trip_for_aligned_addresses() {
    for tag in 0..4usize {
        let word = kernel::compose(0x40, tag, 2);
        assert_eq!(kernel::decompose(word, 2), (0x40, tag));
    }
}

#[test]
fn alignment_decides_the_supported_tag_bits() {
    assert!(kernel::tag_bits_supported::<i32>(0));
    assert!(kernel::tag_bits_supported::<i32>(2));
    assert!(!kernel::tag_bits_supported::<i32>(3));
    assert!(kernel::tag_bits_supported::<i64>(3));
    assert!(!kernel::tag_bits_supported::<i8>(1));
    assert!(!kernel::tag_bits_supported::<i32>(usize::BITS as usize));
    assert!(!kernel::tag_bits_supported::<i32>(usize::BITS as usize + 1));
}
