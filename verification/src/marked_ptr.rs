//! The nullable tagged pointer word: a copyable value packing an address
//! that may legitimately be zero together with `N` tag bits.

use core::marker::PhantomData;
use vstd::arithmetic::power2::pow2;
use vstd::layout::layout_for_type_is_valid;
use vstd::prelude::*;

use crate::kernel;
use crate::kernel::{spec_compose, spec_ptr, spec_tag, supports_tag_bits};

verus! {

/// A pointer-sized word packing a possibly-null address and an `N`-bit tag.
///
/// The address is carried as its plain integer value, so the type never owns
/// or touches a pointee; it is a weak, non-owning reference. Turning the
/// stripped address back into a borrow is the caller's (unverified)
/// responsibility.
///
/// The fields are public so that equality of words is equality of values.
#[derive(Debug, Eq, Ord, Hash)]
pub struct MarkedPtr<T, const N: usize> {
    /// The packed word: pointer field in the high bits, tag field in the
    /// `N` low bits.
    pub inner: usize,
    /// The pointee type the address is understood to refer to; it fixes the
    /// alignment that makes `N` tag bits available.
    pub _marker: PhantomData<T>,
}

impl<T, const N: usize> View for MarkedPtr<T, N> {
    type V = usize;

    open spec fn view(&self) -> usize {
        self.inner
    }
}

impl<T, const N: usize> MarkedPtr<T, N> {
    /// Creates a new unmarked null pointer: zero address, zero tag.
    pub fn null() -> (r: Self)
        ensures
            r@ == 0,
    {
        Self::new(0)
    }

    /// Wraps an address verbatim: no masking, no validation. Any low bits
    /// already set are treated as an already-encoded tag. This is the escape
    /// hatch for round-tripping words that came from elsewhere.
    pub fn new(addr: usize) -> (r: Self)
        ensures
            r@ == addr,
    {
        MarkedPtr { inner: addr, _marker: PhantomData }
    }

    /// Reinterprets an arbitrary pointer-sized integer as a tagged word,
    /// bit-identically and with no validation.
    pub fn from_usize(val: usize) -> (r: Self)
        ensures
            r@ == val,
    {
        Self::new(val)
    }

    /// Packs a raw address and a tag. The low `N` bits of `addr` are
    /// cleared, excess tag bits are silently truncated. The pointee's
    /// alignment must support `N` tag bits; a caller that cannot show this
    /// is rejected outright when it is verified.
    pub fn compose(addr: usize, tag: usize) -> (r: Self)
        requires
            supports_tag_bits::<T>(N as nat),
        ensures
            r@ as nat == spec_compose(addr, tag, N as nat),
    {
        layout_for_type_is_valid::<T>();
        proof {
            kernel::lemma_supported_bits_bound::<T>(N as nat);
        }
        Self::new(kernel::compose(addr, tag, N))
    }

    /// Returns the inner word as is: any tag is *not* stripped. The word
    /// stands for the raw pointer value; using it as an address while it is
    /// still marked would be meaningless.
    pub fn into_ptr(self) -> (r: usize)
        ensures
            r == self@,
    {
        self.inner
    }

    /// Reinterprets the pointee type, keeping the word unchanged. The new
    /// pointee's alignment must still support `N` tag bits.
    pub fn cast<U>(self) -> (r: MarkedPtr<U, N>)
        requires
            supports_tag_bits::<U>(N as nat),
        ensures
            r@ == self@,
    {
        MarkedPtr { inner: self.inner, _marker: PhantomData }
    }

    /// Returns the integer representation of the pointer with its tag,
    /// bit-identically.
    pub fn into_usize(self) -> (r: usize)
        ensures
            r == self@,
    {
        self.inner
    }

    /// True iff the address component *after tag removal* is zero: a word
    /// with a zero address but a non-zero tag still counts as null.
    pub fn is_null(self) -> (r: bool)
        requires
            N < usize::BITS,
        ensures
            r == (spec_ptr(self@, N as nat) == 0),
    {
        self.decompose_ptr() == 0
    }

    /// Returns the same pointer stripped of its tag bits.
    pub fn clear_tag(self) -> (r: Self)
        requires
            N < usize::BITS,
        ensures
            r@ as nat == spec_ptr(self@, N as nat),
    {
        Self::new(self.decompose_ptr())
    }

    /// Returns the tag-stripped pointer together with the separated tag.
    pub fn split_tag(self) -> (r: (Self, usize))
        requires
            N < usize::BITS,
        ensures
            r.0@ as nat == spec_ptr(self@, N as nat),
            r.1 as nat == spec_tag(self@, N as nat),
    {
        let (ptr, tag) = self.decompose();
        (Self::new(ptr), tag)
    }

    /// Clears the current tag and replaces it wholesale with `tag`
    /// (truncated to `N` bits); the address component is unchanged.
    pub fn set_tag(self, tag: usize) -> (r: Self)
        requires
            supports_tag_bits::<T>(N as nat),
        ensures
            r@ as nat == spec_ptr(self@, N as nat) + spec_tag(tag, N as nat),
    {
        layout_for_type_is_valid::<T>();
        proof {
            kernel::lemma_supported_bits_bound::<T>(N as nat);
            kernel::lemma_decompose_fields(self.inner, N as nat);
        }
        Self::compose(self.decompose_ptr(), tag)
    }

    /// Replaces the tag with the result of `func` applied to the current
    /// tag (truncated to `N` bits); the address component is unchanged.
    pub fn update_tag<F: FnOnce(usize) -> usize>(self, func: F) -> (r: Self)
        requires
            supports_tag_bits::<T>(N as nat),
            call_requires(func, ((spec_tag(self@, N as nat) as usize),)),
        ensures
            exists|t: usize|
                #[trigger] call_ensures(func, ((spec_tag(self@, N as nat) as usize),), t)
                    && r@ as nat == spec_ptr(self@, N as nat) + spec_tag(t, N as nat),
    {
        layout_for_type_is_valid::<T>();
        proof {
            kernel::lemma_supported_bits_bound::<T>(N as nat);
            kernel::lemma_decompose_fields(self.inner, N as nat);
        }
        let (ptr, tag) = self.decompose();
        let new_tag = func(tag);
        Self::compose(ptr, new_tag)
    }

    /// Adds `value` to the entire packed word, with no regard for field
    /// boundaries: the caller must keep the delta within the tag's bit width
    /// to get tag-only arithmetic, and must rule out overflow into or past
    /// the pointer field.
    pub fn add_tag(self, value: usize) -> (r: Self)
        requires
            self@ + value <= usize::MAX,
        ensures
            r@ == self@ + value,
    {
        Self::from_usize(self.into_usize() + value)
    }

    /// Subtracts `value` from the entire packed word, with no regard for
    /// field boundaries: the caller must rule out underflow.
    pub fn sub_tag(self, value: usize) -> (r: Self)
        requires
            value <= self@,
        ensures
            r@ == self@ - value,
    {
        Self::from_usize(self.into_usize() - value)
    }

    /// Splits the word, returning the separated raw address and its tag.
    pub fn decompose(self) -> (r: (usize, usize))
        requires
            N < usize::BITS,
        ensures
            r.0 as nat == spec_ptr(self@, N as nat),
            r.1 as nat == spec_tag(self@, N as nat),
    {
        kernel::decompose(self.inner, N)
    }

    /// Returns only the separated raw address, the tag bits cleared.
    pub fn decompose_ptr(self) -> (r: usize)
        requires
            N < usize::BITS,
        ensures
            r as nat == spec_ptr(self@, N as nat),
    {
        kernel::decompose_ptr(self.inner, N)
    }

    /// Returns only the separated tag value.
    pub fn decompose_tag(self) -> (r: usize)
        requires
            N < usize::BITS,
        ensures
            r as nat == spec_tag(self@, N as nat),
    {
        kernel::decompose_tag(self.inner, N)
    }

    /// Splits the word, returning the address as `Some` only when it is
    /// non-null, paired with the separated tag. This is the verifiable half
    /// of an optional dereference: a caller that owns the pointee may turn
    /// the returned address into a borrow, on its own responsibility.
    pub fn decompose_non_null(self) -> (r: (Option<usize>, usize))
        requires
            N < usize::BITS,
        ensures
            r.1 as nat == spec_tag(self@, N as nat),
            spec_ptr(self@, N as nat) == 0 ==> r.0 is None,
            spec_ptr(self@, N as nat) != 0 ==> r.0 == Some(
                (spec_ptr(self@, N as nat) as usize),
            ),
    {
        let (ptr, tag) = self.decompose();
        if ptr == 0 {
            (None, tag)
        } else {
            (Some(ptr), tag)
        }
    }
}

impl<T, const N: usize> Clone for MarkedPtr<T, N> {
    fn clone(&self) -> (r: Self)
        ensures
            r == *self,
    {
        MarkedPtr { inner: self.inner, _marker: PhantomData }
    }
}

impl<T, const N: usize> Copy for MarkedPtr<T, N> {}

impl<T, const N: usize> Default for MarkedPtr<T, N> {
    /// The default value is the unmarked null pointer.
    fn default() -> (r: Self)
        ensures
            r@ == 0,
    {
        Self::null()
    }
}

impl<T, const N: usize> PartialEq for MarkedPtr<T, N> {
    /// Equality is over the full packed word, tag included: two values with
    /// the same address but different tags are unequal.
    fn eq(&self, other: &Self) -> bool {
        self.inner == other.inner
    }
}

impl<T, const N: usize> vstd::std_specs::cmp::PartialEqSpecImpl for MarkedPtr<T, N> {
    open spec fn obeys_eq_spec() -> bool {
        true
    }

    open spec fn eq_spec(&self, other: &Self) -> bool {
        self.inner == other.inner
    }
}

impl<T, const N: usize> PartialOrd for MarkedPtr<T, N> {
    /// Ordering is by the raw numeric value of the full packed word, not by
    /// address first.
    fn partial_cmp(&self, other: &Self) -> Option<core::cmp::Ordering> {
        if self.inner < other.inner {
            Some(core::cmp::Ordering::Less)
        } else if self.inner == other.inner {
            Some(core::cmp::Ordering::Equal)
        } else {
            Some(core::cmp::Ordering::Greater)
        }
    }
}

impl<T, const N: usize> vstd::std_specs::cmp::PartialOrdSpecImpl for MarkedPtr<T, N> {
    open spec fn obeys_partial_cmp_spec() -> bool {
        true
    }

    open spec fn partial_cmp_spec(&self, other: &Self) -> Option<core::cmp::Ordering> {
        if self.inner < other.inner {
            Some(core::cmp::Ordering::Less)
        } else if self.inner == other.inner {
            Some(core::cmp::Ordering::Equal)
        } else {
            Some(core::cmp::Ordering::Greater)
        }
    }
}

/// Law: value equality is equality of the full packed word. Two values
/// sharing an address component but differing in the tag are unequal.
pub proof fn lemma_eq_full_word<T, const N: usize>(p: MarkedPtr<T, N>, q: MarkedPtr<T, N>)
    ensures
        (p == q) <==> p@ == q@,
        spec_ptr(p@, N as nat) == spec_ptr(q@, N as nat) && spec_tag(p@, N as nat) != spec_tag(
            q@,
            N as nat,
        ) ==> p != q,
{
    kernel::lemma_decompose_fields(p.inner, N as nat);
    kernel::lemma_decompose_fields(q.inner, N as nat);
}

/// Law: replacing the tag and reading it back gives exactly the truncated
/// new tag, and the address component is unchanged. Here `q` is any value
/// meeting the contract of `p.set_tag(tag)`.
pub proof fn lemma_set_tag_reads_back<T, const N: usize>(
    p: MarkedPtr<T, N>,
    q: MarkedPtr<T, N>,
    tag: usize,
)
    requires
        N < usize::BITS,
        q@ as nat == spec_ptr(p@, N as nat) + spec_tag(tag, N as nat),
    ensures
        spec_tag(q@, N as nat) == tag as nat % pow2(N as nat),
        spec_ptr(q@, N as nat) == spec_ptr(p@, N as nat),
{
    kernel::lemma_decompose_fields(p.inner, N as nat);
    kernel::lemma_decompose_fields(tag, N as nat);
    let addr0 = (spec_ptr(p@, N as nat) as usize);
    kernel::lemma_compose_truncates(addr0, tag, N as nat);
    kernel::lemma_compose_decompose(addr0, ((tag as nat % pow2(N as nat)) as usize), N as nat);
}

} // verus!
