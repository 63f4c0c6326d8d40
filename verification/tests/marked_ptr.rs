use std::collections::hash_map::DefaultHasher;
use std::hash::{Hash, Hasher};

use conquer_pointer::MarkedPtr as GenericMarkedPtr;

type MarkedPtr = GenericMarkedPtr<i32, 2>;

fn hash_of<T: Hash>(value: &T) -> u64 {
    let mut hasher = DefaultHasher::new();
    value.hash(&mut hasher);
    hasher.finish()
}

#[test]
fn cast() {
    let ptr = MarkedPtr::compose(0, 0b11);
    let cast: GenericMarkedPtr<i64, 2> = ptr.cast();
    assert_eq!(cast.decompose(), (0, 0b11));
}

#[test]
fn from_usize() {
    let reference: usize = 0x1000;
    let ptr = MarkedPtr::from_usize(reference | 0b1);
    assert_eq!(ptr.into_usize(), reference | 0b1);
    assert_eq!(ptr.decompose_non_null(), (Some(reference), 0b1));
}

#[test]
fn from_marked_non_null() {
    let non_null = conquer_pointer::MarkedNonNull::<i32, 2>::compose(0x1000, 0b10);
    let ptr = MarkedPtr::from(non_null);
    assert_eq!(ptr.into_usize(), non_null.into_usize());
    assert_eq!(ptr.decompose(), (0x1000, 0b10));
}

#[test]
fn clear_tag() {
    let raw: usize = 0x1000;
    let ptr = MarkedPtr::compose(raw, 0);
    assert_eq!(ptr.clear_tag().into_ptr(), raw);
    assert_eq!(ptr.clear_tag().decompose(), (raw, 0));

    let ptr = MarkedPtr::compose(raw, 0b11);
    assert_eq!(ptr.clear_tag().into_ptr(), raw);
    assert_eq!(ptr.clear_tag().decompose(), (raw, 0));
}

#[test]
fn with_tag() {
    let raw: usize = 0x1000;
    let unmarked = MarkedPtr::compose(raw, 0);
    let marked_ptr = MarkedPtr::compose(raw, 0b11);

    assert_eq!(unmarked.set_tag(0b1), MarkedPtr::compose(raw, 0b1));
    assert_eq!(marked_ptr.set_tag(0b1), MarkedPtr::compose(raw, 0b1));
    assert_eq!(unmarked.set_tag(0b101), MarkedPtr::compose(raw, 0b1));
    assert_eq!(marked_ptr.set_tag(0b101), MarkedPtr::compose(raw, 0b1));
    assert_eq!(unmarked.set_tag(0).into_ptr(), raw);
    assert_eq!(marked_ptr.set_tag(0).into_ptr(), raw);
}

#[test]
fn decompose() {
    assert_eq!(MarkedPtr::compose(0, 0).decompose(), (0, 0));
    assert_eq!(MarkedPtr::compose(0, 0b11).decompose(), (0, 0b11));
    assert_eq!(MarkedPtr::compose(0, 0b100).decompose(), (0, 0));

    let ptr: usize = 0x2000;
    assert_eq!(MarkedPtr::compose(ptr, 0).decompose(), (ptr, 0));
    assert_eq!(MarkedPtr::compose(ptr, 0b11).decompose(), (ptr, 0b11));
    assert_eq!(MarkedPtr::compose(ptr, 0b100).decompose(), (ptr, 0));
}

#[test]
fn update_tag() {
    let ptr = MarkedPtr::compose(0x1000, 0b11);
    let ptr = ptr.update_tag(|tag| tag - 1);
    assert_eq!(ptr.decompose_tag(), 0b10);
}

#[test]
fn add_sub_tag() {
    let ptr = MarkedPtr::compose(0x1000, 0b10);
    let up = ptr.add_tag(1);
    assert_eq!(up.decompose(), (0x1000, 0b11));
    let down = up.sub_tag(1);
    assert_eq!(down, ptr);
}

#[test]
fn null_distinction() {
    let null = MarkedPtr::null();
    assert_eq!(null.into_usize(), 0);
    assert!(null.is_null());
    assert_eq!(null.decompose(), (0, 0));

    let marked_null = MarkedPtr::from_usize(0b11);
    assert!(marked_null.is_null());
    assert_ne!(marked_null, null);
    assert_ne!(marked_null.into_usize(), 0);
}

#[test]
fn default_is_null() {
    let ptr = MarkedPtr::default();
    assert_eq!(ptr, MarkedPtr::null());
    assert!(ptr.is_null());
}

#[test]
fn eq_ord_hash_use_the_full_word() {
    let a = MarkedPtr::compose(0x1000, 0b01);
    let b = MarkedPtr::compose(0x1000, 0b10);
    assert_ne!(a, b);
    assert!(a < b);
    assert!(b > a);
    assert_ne!(hash_of(&a), hash_of(&b));
    assert_eq!(a.decompose_ptr(), b.decompose_ptr());
}

#[test]
fn set_tag_reads_back_truncated() {
    let ptr = MarkedPtr::compose(0x1000, 0b10);
    let replaced = ptr.set_tag(0b101);
    assert_eq!(replaced.decompose_tag(), 0b01);
    assert_eq!(replaced.decompose_ptr(), ptr.decompose_ptr());
}

#[test]
fn excess_tag_bits_are_truncated() {
    let addr: usize = 0x1000;
    let full = MarkedPtr::compose(addr, 0b11);
    assert_eq!(full.decompose(), (addr, 0b11));
    let excess = MarkedPtr::compose(addr, 0b101);
    assert_eq!(excess, MarkedPtr::compose(addr, 0b01));
}

#[test]
fn marked_null_decomposes_to_no_value() {
    let marked_null = MarkedPtr::compose(0, 0b11);
    assert_eq!(marked_null.decompose_non_null(), (None, 0b11));
}

#[test]
fn split_tag() {
    let ptr = MarkedPtr::compose(0x1000, 0b10);
    let (cleared, tag) = ptr.split_tag();
    assert_eq!(cleared, MarkedPtr::compose(0x1000, 0));
    assert_eq!(tag, 0b10);
}
