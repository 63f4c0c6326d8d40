//! The non-null tagged pointer word: same bit layout as [`MarkedPtr`], with
//! the added guarantee that the address component, after tag removal, is
//! never zero. The tag bits may still hold any value.

use core::marker::PhantomData;
use vstd::arithmetic::power2::pow2;
use vstd::layout::layout_for_type_is_valid;
use vstd::prelude::*;

use crate::kernel;
use crate::kernel::{spec_compose, spec_ptr, spec_tag, supports_tag_bits};
use crate::marked_ptr::MarkedPtr;

verus! {

/// The recoverable failure of converting a nullable tagged pointer into the
/// non-null variant: the address component was zero. The tag that the word
/// carried is retained.
#[derive(Debug, Clone, Copy, PartialEq, Eq, Hash, Structural)]
pub struct Null(pub usize);

/// A pointer-sized word packing a non-null address and an `N`-bit tag.
///
/// Well-formedness ([`MarkedNonNull::wf`]) states that the pointer field is
/// non-zero; it is established by every constructor and preserved by every
/// operation. A word whose address component is zero is rejected at
/// construction, whatever its tag: the *address* decides, not the word.
#[derive(Debug, Eq, Ord, Hash)]
pub struct MarkedNonNull<T, const N: usize> {
    /// The packed word: pointer field in the high bits, tag field in the
    /// `N` low bits.
    pub inner: usize,
    /// The pointee type the address is understood to refer to.
    pub _marker: PhantomData<T>,
}

impl<T, const N: usize> View for MarkedNonNull<T, N> {
    type V = usize;

    open spec fn view(&self) -> usize {
        self.inner
    }
}

impl<T, const N: usize> MarkedNonNull<T, N> {
    /// Well-formedness: the address component, after tag removal, is not
    /// zero.
    pub open spec fn wf(self) -> bool {
        spec_ptr(self@, N as nat) != 0
    }

    /// Converts a nullable tagged pointer, failing exactly when its address
    /// component is zero; the tag it carried is returned in the error,
    /// whatever its value.
    pub fn new(marked: MarkedPtr<T, N>) -> (r: Result<Self, Null>)
        requires
            N < usize::BITS,
        ensures
            spec_ptr(marked@, N as nat) != 0 ==> (r matches Ok(p) && p@ == marked@ && p.wf()),
            spec_ptr(marked@, N as nat) == 0 ==> r == Err::<Self, Null>(
                Null((spec_tag(marked@, N as nat) as usize)),
            ),
    {
        let (ptr, tag) = marked.decompose();
        if ptr == 0 {
            Err(Null(tag))
        } else {
            Ok(MarkedNonNull { inner: marked.into_usize(), _marker: PhantomData })
        }
    }

    /// Packs a non-null, tag-aligned address and a tag (truncated to `N`
    /// bits). The alignment both keeps the tag field clean and, being
    /// non-zero, keeps the pointer field non-zero.
    pub fn compose(addr: usize, tag: usize) -> (r: Self)
        requires
            supports_tag_bits::<T>(N as nat),
            addr != 0,
            addr as nat % pow2(N as nat) == 0,
        ensures
            r@ as nat == spec_compose(addr, tag, N as nat),
            r.wf(),
    {
        layout_for_type_is_valid::<T>();
        proof {
            kernel::lemma_supported_bits_bound::<T>(N as nat);
            kernel::lemma_compose_truncates(addr, tag, N as nat);
            kernel::lemma_decompose_fields(tag, N as nat);
            kernel::lemma_compose_decompose(
                addr,
                ((tag as nat % pow2(N as nat)) as usize),
                N as nat,
            );
        }
        MarkedNonNull { inner: kernel::compose(addr, tag, N), _marker: PhantomData }
    }

    /// Degrades to the nullable form: infallible and bit-identical.
    pub fn into_marked_ptr(self) -> (r: MarkedPtr<T, N>)
        ensures
            r@ == self@,
    {
        MarkedPtr::new(self.inner)
    }

    /// Returns the integer representation of the pointer with its tag,
    /// bit-identically.
    pub fn into_usize(self) -> (r: usize)
        ensures
            r == self@,
    {
        self.inner
    }

    /// Reinterprets the pointee type, keeping the word unchanged. The new
    /// pointee's alignment must still support `N` tag bits.
    pub fn cast<U>(self) -> (r: MarkedNonNull<U, N>)
        requires
            supports_tag_bits::<U>(N as nat),
        ensures
            r@ == self@,
            self.wf() ==> r.wf(),
    {
        MarkedNonNull { inner: self.inner, _marker: PhantomData }
    }

    /// Splits the word, returning the separated raw address and its tag.
    /// For a well-formed value the address is non-zero.
    pub fn decompose(self) -> (r: (usize, usize))
        requires
            N < usize::BITS,
        ensures
            r.0 as nat == spec_ptr(self@, N as nat),
            r.1 as nat == spec_tag(self@, N as nat),
            self.wf() ==> r.0 != 0,
    {
        kernel::decompose(self.inner, N)
    }

    /// Returns only the separated raw address, the tag bits cleared.
    pub fn decompose_ptr(self) -> (r: usize)
        requires
            N < usize::BITS,
        ensures
            r as nat == spec_ptr(self@, N as nat),
            self.wf() ==> r != 0,
    {
        kernel::decompose_ptr(self.inner, N)
    }

    /// Returns only the separated tag value.
    pub fn decompose_tag(self) -> (r: usize)
        requires
            N < usize::BITS,
        ensures
            r as nat == spec_tag(self@, N as nat),
    {
        kernel::decompose_tag(self.inner, N)
    }

    /// Returns the same pointer stripped of its tag bits; still non-null.
    pub fn clear_tag(self) -> (r: Self)
        requires
            N < usize::BITS,
            self.wf(),
        ensures
            r@ as nat == spec_ptr(self@, N as nat),
            r.wf(),
    {
        proof {
            kernel::lemma_decompose_fields(self.inner, N as nat);
            kernel::lemma_decompose_fields(((spec_ptr(self@, N as nat)) as usize), N as nat);
        }
        MarkedNonNull { inner: self.decompose_ptr(), _marker: PhantomData }
    }

    /// Returns the tag-stripped pointer together with the separated tag.
    pub fn split_tag(self) -> (r: (Self, usize))
        requires
            N < usize::BITS,
            self.wf(),
        ensures
            r.0@ as nat == spec_ptr(self@, N as nat),
            r.1 as nat == spec_tag(self@, N as nat),
            r.0.wf(),
    {
        let cleared = self.clear_tag();
        (cleared, self.decompose_tag())
    }

    /// Clears the current tag and replaces it wholesale with `tag`
    /// (truncated to `N` bits); the address component is unchanged and
    /// stays non-null.
    pub fn set_tag(self, tag: usize) -> (r: Self)
        requires
            supports_tag_bits::<T>(N as nat),
            self.wf(),
        ensures
            r@ as nat == spec_ptr(self@, N as nat) + spec_tag(tag, N as nat),
            spec_ptr(r@, N as nat) == spec_ptr(self@, N as nat),
            spec_tag(r@, N as nat) == spec_tag(tag, N as nat),
            r.wf(),
    {
        layout_for_type_is_valid::<T>();
        proof {
            kernel::lemma_supported_bits_bound::<T>(N as nat);
            kernel::lemma_decompose_fields(self.inner, N as nat);
            kernel::lemma_decompose_fields(tag, N as nat);
            kernel::lemma_compose_truncates(((spec_ptr(self@, N as nat)) as usize), tag, N as nat);
            kernel::lemma_compose_decompose(
                ((spec_ptr(self@, N as nat)) as usize),
                ((tag as nat % pow2(N as nat)) as usize),
                N as nat,
            );
        }
        MarkedNonNull { inner: kernel::compose(self.decompose_ptr(), tag, N), _marker: PhantomData }
    }

    /// Replaces the tag with the result of `func` applied to the current
    /// tag (truncated to `N` bits); the address component is unchanged and
    /// stays non-null.
    pub fn update_tag<F: FnOnce(usize) -> usize>(self, func: F) -> (r: Self)
        requires
            supports_tag_bits::<T>(N as nat),
            self.wf(),
            call_requires(func, ((spec_tag(self@, N as nat) as usize),)),
        ensures
            exists|t: usize|
                #[trigger] call_ensures(func, ((spec_tag(self@, N as nat) as usize),), t)
                    && r@ as nat == spec_ptr(self@, N as nat) + spec_tag(t, N as nat),
            r.wf(),
    {
        layout_for_type_is_valid::<T>();
        proof {
            kernel::lemma_supported_bits_bound::<T>(N as nat);
            kernel::lemma_decompose_fields(self.inner, N as nat);
        }
        let (ptr, tag) = self.decompose();
        let new_tag = func(tag);
        proof {
            kernel::lemma_decompose_fields(new_tag, N as nat);
            kernel::lemma_compose_truncates(ptr, new_tag, N as nat);
            kernel::lemma_compose_decompose(
                ptr,
                ((new_tag as nat % pow2(N as nat)) as usize),
                N as nat,
            );
        }
        MarkedNonNull { inner: kernel::compose(ptr, new_tag, N), _marker: PhantomData }
    }
}

impl<T, const N: usize> Clone for MarkedNonNull<T, N> {
    fn clone(&self) -> (r: Self)
        ensures
            r == *self,
    {
        MarkedNonNull { inner: self.inner, _marker: PhantomData }
    }
}

impl<T, const N: usize> Copy for MarkedNonNull<T, N> {}

impl<T, const N: usize> PartialEq for MarkedNonNull<T, N> {
    /// Equality is over the full packed word, tag included.
    fn eq(&self, other: &Self) -> bool {
        self.inner == other.inner
    }
}

impl<T, const N: usize> vstd::std_specs::cmp::PartialEqSpecImpl for MarkedNonNull<T, N> {
    open spec fn obeys_eq_spec() -> bool {
        true
    }

    open spec fn eq_spec(&self, other: &Self) -> bool {
        self.inner == other.inner
    }
}

impl<T, const N: usize> PartialOrd for MarkedNonNull<T, N> {
    /// Ordering is by the raw numeric value of the full packed word, not by
    /// address first.
    fn partial_cmp(&self, other: &Self) -> Option<core::cmp::Ordering> {
        if self.inner < other.inner {
            Some(core::cmp::Ordering::Less)
        } else if self.inner == other.inner {
            Some(core::cmp::Ordering::Equal)
        } else {
            Some(core::cmp::Ordering::Greater)
        }
    }
}

impl<T, const N: usize> vstd::std_specs::cmp::PartialOrdSpecImpl for MarkedNonNull<T, N> {
    open spec fn obeys_partial_cmp_spec() -> bool {
        true
    }

    open spec fn partial_cmp_spec(&self, other: &Self) -> Option<core::cmp::Ordering> {
        if self.inner < other.inner {
            Some(core::cmp::Ordering::Less)
        } else if self.inner == other.inner {
            Some(core::cmp::Ordering::Equal)
        } else {
            Some(core::cmp::Ordering::Greater)
        }
    }
}

impl<T, const N: usize> From<MarkedNonNull<T, N>> for MarkedPtr<T, N> {
    /// Every non-null tagged pointer is representable as a nullable one,
    /// with the same bit pattern.
    fn from(non_null: MarkedNonNull<T, N>) -> (r: MarkedPtr<T, N>) {
        non_null.into_marked_ptr()
    }
}

impl<T, const N: usize> vstd::std_specs::convert::FromSpecImpl<MarkedNonNull<T, N>> for MarkedPtr<T, N> {
    open spec fn obeys_from_spec() -> bool {
        true
    }

    open spec fn from_spec(v: MarkedNonNull<T, N>) -> MarkedPtr<T, N> {
        MarkedPtr { inner: v.inner, _marker: PhantomData }
    }
}

} // verus!
