//! Single-bit facts about 32-bit register words and 128-bit mask words.

use vstd::prelude::*;
use vstd::std_specs::bits::{axiom_u32_trailing_zeros, u32_trailing_zeros};

verus! {

/// Bit `k` of a 32-bit word is set.
pub open spec fn bit32(word: u32, k: int) -> bool {
    0 <= k < 32 && (word >> (k as u32)) & 1u32 == 1u32
}

/// Bit `k` of a 128-bit word is set.
pub open spec fn bit128(word: u128, k: int) -> bool {
    0 <= k < 128 && (word >> (k as u128)) & 1u128 == 1u128
}

pub proof fn lemma_bit32_zero(k: int)
    ensures
        !bit32(0u32, k),
{
    if 0 <= k < 32 {
        let ku: u32 = k as u32;
        assert((0u32 >> ku) & 1u32 == 0u32) by (bit_vector);
    }
}

pub proof fn lemma_bit32_set(word: u32, k: u32, j: int)
    requires
        k < 32,
    ensures
        bit32(word | (1u32 << k), j) <==> (bit32(word, j) || j == k),
{
    if 0 <= j < 32 {
        let ju: u32 = j as u32;
        assert(((word | (1u32 << k)) >> ju) & 1u32 == 1u32 <==> ((word >> ju) & 1u32 == 1u32 || ju
            == k)) by (bit_vector)
            requires
                k < 32,
                ju < 32,
        ;
    }
}

pub proof fn lemma_bit32_clear(word: u32, k: u32, j: int)
    requires
        k < 32,
    ensures
        bit32(word & !(1u32 << k), j) <==> (bit32(word, j) && j != k),
{
    if 0 <= j < 32 {
        let ju: u32 = j as u32;
        assert(((word & !(1u32 << k)) >> ju) & 1u32 == 1u32 <==> ((word >> ju) & 1u32 == 1u32 && ju
            != k)) by (bit_vector)
            requires
                k < 32,
                ju < 32,
        ;
    }
}

pub proof fn lemma_bit32_and_not(word: u32, mask: u32, j: int)
    ensures
        bit32(word & !mask, j) <==> (bit32(word, j) && !bit32(mask, j)),
{
    if 0 <= j < 32 {
        let ju: u32 = j as u32;
        assert(((word & !mask) >> ju) & 1u32 == 1u32 <==> ((word >> ju) & 1u32 == 1u32 && (mask
            >> ju) & 1u32 != 1u32)) by (bit_vector)
            requires
                ju < 32,
        ;
    }
}

/// The number of trailing zeros of a non-zero word is the position of its lowest set bit.
pub proof fn lemma_bit32_lowest(word: u32)
    requires
        word != 0,
    ensures
        u32_trailing_zeros(word) < 32,
        bit32(word, u32_trailing_zeros(word) as int),
        forall|j: int| 0 <= j < u32_trailing_zeros(word) ==> !bit32(word, j),
{
    axiom_u32_trailing_zeros(word);
    let t: u32 = u32_trailing_zeros(word);
    assert forall|j: int| 0 <= j < t implies !bit32(word, j) by {
        let ju: u32 = j as u32;
        assert((word >> ju) & 1u32 == 0u32);
    }
}

/// A word is non-zero exactly when one of its bits is set.
pub proof fn lemma_bit32_nonzero(word: u32)
    ensures
        word != 0 <==> exists|k: int| bit32(word, k),
{
    if word != 0 {
        lemma_bit32_lowest(word);
        assert(bit32(word, u32_trailing_zeros(word) as int));
    } else {
        assert forall|k: int| !bit32(word, k) by {
            lemma_bit32_zero(k);
        }
    }
}

pub proof fn lemma_or_nonzero(a: u32, b: u32)
    ensures
        (a | b) != 0 <==> (a != 0 || b != 0),
{
    assert((a | b) != 0 <==> (a != 0 || b != 0)) by (bit_vector);
}

pub proof fn lemma_bit128_zero(k: int)
    ensures
        !bit128(0u128, k),
{
    if 0 <= k < 128 {
        let ku: u128 = k as u128;
        assert((0u128 >> ku) & 1u128 == 0u128) by (bit_vector);
    }
}

pub proof fn lemma_bit128_set(word: u128, k: u128, j: int)
    requires
        k < 128,
    ensures
        bit128(word | (1u128 << k), j) <==> (bit128(word, j) || j == k),
{
    if 0 <= j < 128 {
        let ju: u128 = j as u128;
        assert(((word | (1u128 << k)) >> ju) & 1u128 == 1u128 <==> ((word >> ju) & 1u128 == 1u128
            || ju == k)) by (bit_vector)
            requires
                k < 128,
                ju < 128,
        ;
    }
}

/// Bit `k` of the `part`-th 32-bit slice of a 128-bit word is bit `32 * part + k` of the word.
pub proof fn lemma_bit128_slice(word: u128, part: u128, k: int)
    requires
        part < 4,
    ensures
        bit32((word >> (32 * part)) as u32, k) <==> (0 <= k < 32 && bit128(word, 32 * part + k)),
{
    if 0 <= k < 32 {
        let ku: u128 = k as u128;
        let k32: u32 = k as u32;
        let sum: u128 = (32 * part + ku) as u128;
        assert((((word >> (32 * part)) as u32) >> k32) & 1u32 == 1u32 <==> (word >> sum) & 1u128
            == 1u128) by (bit_vector)
            requires
                part < 4,
                ku < 32,
                k32 == ku,
                sum == 32 * part + ku,
        ;
    }
}

} // verus!
