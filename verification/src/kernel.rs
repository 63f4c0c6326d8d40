//! Bit-encoding kernel: pure functions on pointer-sized unsigned words that
//! merge a clean address and a tag into one word and split it back apart.
//!
//! A word is logically partitioned into a pointer field (the high bits) and
//! a tag field (the `bits` low bits). Mathematically the tag field of `w` is
//! `w % 2^bits` and the pointer field is `w - w % 2^bits`.

use vstd::arithmetic::div_mod::{
    lemma_fundamental_div_mod, lemma_mod_multiples_vanish, lemma_mod_twice, lemma_small_mod,
};
use vstd::arithmetic::mul::lemma_mul_inequality;
use vstd::arithmetic::power2::{lemma_pow2_adds, lemma_pow2_pos, lemma_pow2_strictly_increases, pow2};
use vstd::bits::{
    lemma_usize_low_bits_mask_is_mod, lemma_usize_pow2_no_overflow, lemma_usize_shl_is_mul,
    low_bits_mask,
};
use vstd::layout::{align_of, layout_for_type_is_valid, unsigned_int_max_values};
use vstd::prelude::*;

verus! {

/// True when a pointee type `T` leaves at least `bits` low-order zero bits in
/// every well-aligned address, i.e. when its alignment is at least `2^bits`.
///
/// Requesting more tag bits than the alignment can host is a type-level
/// programming error; every composing operation requires this predicate, so
/// the misuse is rejected when the caller is verified instead of aborting at
/// run time.
pub open spec fn supports_tag_bits<T>(bits: nat) -> bool {
    pow2(bits) <= align_of::<T>()
}

/// The tag field of `word`: its `bits` low-order bits, as a number.
pub open spec fn spec_tag(word: usize, bits: nat) -> nat {
    word as nat % pow2(bits)
}

/// The pointer field of `word`: the word with its `bits` low-order bits
/// cleared.
pub open spec fn spec_ptr(word: usize, bits: nat) -> nat {
    (word as nat - spec_tag(word, bits)) as nat
}

/// The word obtained by packing `addr` and `tag`: the low bits of `addr` are
/// discarded, the tag is silently truncated to `bits` bits, and the two
/// disjoint fields are merged.
pub open spec fn spec_compose(addr: usize, tag: usize, bits: nat) -> nat {
    spec_ptr(addr, bits) + spec_tag(tag, bits)
}

/// Bitwise identities behind masking: `x & m` never exceeds `x`, clearing the
/// masked bits subtracts them, and merging two values with disjoint masks by
/// `|` is the same as adding them.
proof fn lemma_mask_split(x: usize, y: usize, m: usize)
    by (bit_vector)
    ensures
        x & m <= x,
        x & !m == x - (x & m),
        ((x & !m) | (y & m)) == (x & !m) + (y & m),
{
}

/// The two fields of a word are disjoint and exhaustive: they add back up to
/// the word, the tag field is below `2^bits`, and the pointer field is a
/// multiple of `2^bits`.
pub proof fn lemma_decompose_fields(word: usize, bits: nat)
    ensures
        spec_ptr(word, bits) + spec_tag(word, bits) == word as nat,
        spec_tag(word, bits) < pow2(bits),
        spec_ptr(word, bits) % pow2(bits) == 0,
{
    lemma_pow2_pos(bits);
    let p = pow2(bits) as int;
    lemma_fundamental_div_mod(word as int, p);
    lemma_mod_multiples_vanish(word as int / p, 0, p);
}

/// A tag-bit count a pointee type supports never reaches the width of the
/// word itself, since the alignment fits in a `usize`.
pub proof fn lemma_supported_bits_bound<T>(bits: nat)
    requires
        supports_tag_bits::<T>(bits),
        align_of::<T>() <= usize::MAX,
    ensures
        bits < usize::BITS,
{
    if bits >= usize::BITS as nat {
        unsigned_int_max_values();
        if bits > usize::BITS as nat {
            lemma_pow2_strictly_increases(usize::BITS as nat, bits);
        }
    }
}

/// A packed word always fits in a `usize`: the pointer field leaves room for
/// a full tag field below it.
pub proof fn lemma_compose_in_range(addr: usize, tag: usize, bits: nat)
    requires
        bits < usize::BITS,
    ensures
        spec_compose(addr, tag, bits) <= usize::MAX,
{
    lemma_pow2_pos(bits);
    unsigned_int_max_values();
    lemma_pow2_adds((usize::BITS - bits) as nat, bits);
    let p = pow2(bits) as int;
    let k = pow2((usize::BITS - bits) as nat) as int;
    let q = addr as int / p;
    lemma_fundamental_div_mod(addr as int, p);
    lemma_decompose_fields(addr, bits);
    lemma_decompose_fields(tag, bits);
    assert(spec_ptr(addr, bits) == q * p);
    assert(q * p < k * p);
    assert(q < k) by (nonlinear_arith)
        requires
            q * p < k * p,
            p > 0,
    ;
    lemma_mul_inequality(q + 1, k, p);
    assert((q + 1) * p == q * p + p) by (nonlinear_arith);
    assert(q * p + spec_tag(tag, bits) <= (q + 1) * p - 1);
}

/// Round trip: packing a clean, tag-aligned address with an in-range tag and
/// splitting the word again returns exactly the address and the tag.
pub proof fn lemma_compose_decompose(addr: usize, tag: usize, bits: nat)
    requires
        bits < usize::BITS,
        addr as nat % pow2(bits) == 0,
        tag < pow2(bits),
    ensures
        spec_compose(addr, tag, bits) <= usize::MAX,
        spec_ptr(spec_compose(addr, tag, bits) as usize, bits) == addr as nat,
        spec_tag(spec_compose(addr, tag, bits) as usize, bits) == tag as nat,
{
    lemma_pow2_pos(bits);
    lemma_compose_in_range(addr, tag, bits);
    let p = pow2(bits) as int;
    lemma_small_mod(tag as nat, pow2(bits));
    assert(spec_compose(addr, tag, bits) == addr + tag);
    lemma_fundamental_div_mod(addr as int, p);
    lemma_mod_multiples_vanish(addr as int / p, tag as int, p);
    lemma_small_mod(tag as nat, pow2(bits));
}

/// Silent truncation: packing with an oversized tag gives the same word as
/// packing with the tag reduced modulo `2^bits`.
pub proof fn lemma_compose_truncates(addr: usize, tag: usize, bits: nat)
    requires
        bits < usize::BITS,
    ensures
        spec_compose(addr, tag, bits) == spec_compose(
            addr,
            (tag as nat % pow2(bits)) as usize,
            bits,
        ),
{
    lemma_pow2_pos(bits);
    lemma_usize_pow2_no_overflow(bits);
    lemma_mod_twice(tag as int, pow2(bits) as int);
}

/// The all-zero word is the only word whose pointer field and tag field are
/// both zero: a zero address with a non-zero tag is not the null word.
pub proof fn lemma_null_word(word: usize, bits: nat)
    ensures
        spec_ptr(0, bits) == 0,
        spec_tag(0, bits) == 0,
        word == 0 <==> (spec_ptr(word, bits) == 0 && spec_tag(word, bits) == 0),
{
    lemma_pow2_pos(bits);
    lemma_decompose_fields(word, bits);
    lemma_small_mod(0, pow2(bits));
}

/// Decides at run time whether the pointee type `T`'s alignment can host
/// `bits` tag bits. Alignments are platform facts that the verifier does not
/// fix, so this check is how a caller discharges the alignment precondition
/// of the composing operations when it cannot state it up front.
pub fn tag_bits_supported<T>(bits: usize) -> (r: bool)
    ensures
        r == supports_tag_bits::<T>(bits as nat),
{
    layout_for_type_is_valid::<T>();
    if bits >= (usize::BITS as usize) {
        proof {
            if supports_tag_bits::<T>(bits as nat) {
                lemma_supported_bits_bound::<T>(bits as nat);
            }
        }
        false
    } else {
        proof {
            lemma_usize_pow2_no_overflow(bits as nat);
            lemma_usize_shl_is_mul(1, bits);
        }
        core::mem::align_of::<T>() >= 1usize << bits
    }
}

/// The bitmask selecting the `bits` low-order bits of a word.
pub fn mark_mask(bits: usize) -> (mask: usize)
    requires
        bits < usize::BITS,
    ensures
        mask as nat == low_bits_mask(bits as nat),
        mask as nat == pow2(bits as nat) - 1,
{
    proof {
        lemma_usize_pow2_no_overflow(bits as nat);
        lemma_usize_shl_is_mul(1, bits);
    }
    (1usize << bits) - 1
}

/// Packs `addr` and `tag` into one word: the `bits` low bits of `addr` are
/// cleared, all but the `bits` low bits of `tag` are cleared (silent
/// truncation, by design), and the two are merged.
pub fn compose(addr: usize, tag: usize, bits: usize) -> (word: usize)
    requires
        bits < usize::BITS,
    ensures
        word as nat == spec_compose(addr, tag, bits as nat),
{
    let mask = mark_mask(bits);
    proof {
        lemma_usize_pow2_no_overflow(bits as nat);
        lemma_usize_low_bits_mask_is_mod(addr, bits as nat);
        lemma_usize_low_bits_mask_is_mod(tag, bits as nat);
        lemma_mask_split(addr, tag, mask);
    }
    (addr & !mask) | (tag & mask)
}

/// Splits a word into its pointer field and its tag field. Total: it is
/// meaningful for any bit pattern.
pub fn decompose(word: usize, bits: usize) -> (r: (usize, usize))
    requires
        bits < usize::BITS,
    ensures
        r.0 as nat == spec_ptr(word, bits as nat),
        r.1 as nat == spec_tag(word, bits as nat),
{
    (decompose_ptr(word, bits), decompose_tag(word, bits))
}

/// The pointer field of a word: the word with its tag bits cleared.
pub fn decompose_ptr(word: usize, bits: usize) -> (ptr: usize)
    requires
        bits < usize::BITS,
    ensures
        ptr as nat == spec_ptr(word, bits as nat),
{
    let mask = mark_mask(bits);
    proof {
        lemma_usize_pow2_no_overflow(bits as nat);
        lemma_usize_low_bits_mask_is_mod(word, bits as nat);
        lemma_mask_split(word, word, mask);
    }
    word & !mask
}

/// The tag field of a word.
pub fn decompose_tag(word: usize, bits: usize) -> (tag: usize)
    requires
        bits < usize::BITS,
    ensures
        tag as nat == spec_tag(word, bits as nat),
{
    let mask = mark_mask(bits);
    proof {
        lemma_usize_pow2_no_overflow(bits as nat);
        lemma_usize_low_bits_mask_is_mod(word, bits as nat);
    }
    word & mask
}

} // verus!
