use conquer_pointer::{MarkedNonNull, MarkedPtr, Null};

type NonNull = MarkedNonNull<i32, 2>;
type Ptr = MarkedPtr<i32, 2>;

#[test]
fn new_rejects_null_address_and_keeps_the_tag() {
    let marked_null = Ptr::compose(0, 0b11);
    assert_eq!(NonNull::new(marked_null), Err(Null(0b11)));

    let plain_null = Ptr::null();
    assert_eq!(NonNull::new(plain_null), Err(Null(0)));
}

#[test]
fn new_accepts_non_null_address() {
    let ptr = Ptr::compose(0x1000, 0b01);
    let non_null = NonNull::new(ptr).unwrap();
    assert_eq!(non_null.into_usize(), ptr.into_usize());
    assert_eq!(non_null.decompose(), (0x1000, 0b01));
}

#[test]
fn reference_round_trip_preserves_address_with_zero_tag() {
    let addr: usize = 0x1000;
    let non_null = NonNull::compose(addr, 0);
    let ptr: Ptr = MarkedPtr::from(non_null);
    assert_eq!(ptr.decompose_ptr(), addr);
    assert_eq!(ptr.decompose_tag(), 0);
    assert!(!ptr.is_null());
}

#[test]
fn compose_truncates_excess_tag_bits() {
    let non_null = NonNull::compose(0x1000, 0b101);
    assert_eq!(non_null.decompose(), (0x1000, 0b01));
}

#[test]
fn set_tag_keeps_the_address() {
    let non_null = NonNull::compose(0x1000, 0b11);
    let replaced = non_null.set_tag(0b10);
    assert_eq!(replaced.decompose(), (0x1000, 0b10));
    let truncated = non_null.set_tag(0b101);
    assert_eq!(truncated.decompose(), (0x1000, 0b01));
}

#[test]
fn clear_and_split_tag() {
    let non_null = NonNull::compose(0x1000, 0b11);
    assert_eq!(non_null.clear_tag().decompose(), (0x1000, 0));
    let (cleared, tag) = non_null.split_tag();
    assert_eq!(cleared.decompose(), (0x1000, 0));
    assert_eq!(tag, 0b11);
}

#[test]
fn update_tag_transforms_the_tag() {
    let non_null = NonNull::compose(0x1000, 0b11);
    let updated = non_null.update_tag(|tag| tag - 1);
    assert_eq!(updated.decompose(), (0x1000, 0b10));
}

#[test]
fn cast_keeps_the_word() {
    let non_null = NonNull::compose(0x1000, 0b11);
    let cast: MarkedNonNull<i64, 2> = non_null.cast();
    assert_eq!(cast.decompose(), (0x1000, 0b11));
}

#[test]
fn ordering_uses_the_full_word() {
    let a = NonNull::compose(0x1000, 0b01);
    let b = NonNull::compose(0x1000, 0b10);
    assert_ne!(a, b);
    assert!(a < b);
}
