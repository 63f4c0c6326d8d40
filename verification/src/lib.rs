//! Tagged pointer words: a pointer-sized address and a small integer tag
//! packed into a single machine word, using the low-order bits that a
//! pointee type's alignment guarantees to be zero.
//!
//! The crate works on plain `usize` words: an address is carried as its
//! integer value, so every bit-level operation can be specified and proved.
//! Turning such a word back into a live reference is inherently a trust
//! step and is left to the (unverified) caller.

pub mod kernel;
pub mod marked_non_null;
pub mod marked_ptr;

pub use kernel::{spec_compose, spec_ptr, spec_tag, supports_tag_bits};
pub use marked_non_null::{MarkedNonNull, Null};
pub use marked_ptr::MarkedPtr;
