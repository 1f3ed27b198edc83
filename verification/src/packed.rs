//! The 16-bit header word that packs a block's length and capacity class.
//!
//! Bits 0 to 11 hold the used length. Bits 12 to 15 hold the capacity
//! class: class 0 means a tight block whose capacity equals its length, and
//! a class `i` from 1 to 15 means a capacity of `2^i` slots.

use vstd::prelude::*;
use vstd::arithmetic::power2::{lemma2_to64, pow2};
use vstd::bits::{lemma_u64_pow2_no_overflow, lemma_u64_shl_is_mul, lemma_usize_shl_is_mul};
use vstd::std_specs::bits::{axiom_u64_trailing_zeros, u64_trailing_zeros};

verus! {

/// Selects the length bits of a header word.
pub const LEN_MASK: u16 = 0x0fff;

/// The position of the lowest capacity-class bit in a header word.
pub const CAP_OFFSET: u16 = 12;

/// The largest length a header word can hold.
pub const MAX_LEN: usize = 4095;

/// The largest capacity class a header word can hold.
pub const MAX_CLASS: u16 = 15;

/// The used length stored in a header word.
pub open spec fn word_len(word: u16) -> nat {
    (word as nat) % 4096
}

/// The capacity class stored in a header word.
pub open spec fn word_class(word: u16) -> nat {
    (word as nat) / 4096
}

/// The number of slots a header word stands for.
pub open spec fn word_capacity(word: u16) -> nat {
    if word_class(word) == 0 {
        word_len(word)
    } else {
        pow2(word_class(word))
    }
}

/// The header word that holds the given class and length.
pub open spec fn pack(class: nat, len: nat) -> u16
    recommends
        class <= MAX_CLASS,
        len <= MAX_LEN,
{
    (class * 4096 + len) as u16
}

/// The capacities a block can be created with or resized to: the powers of
/// two that have a class of their own, from 2 to 32768.
pub open spec fn is_capacity(capacity: nat) -> bool {
    exists|class: nat| 1 <= class <= MAX_CLASS && capacity == pow2(class)
}

/// Packing and unpacking are inverse to each other.
pub proof fn lemma_pack_unpack(class: nat, len: nat)
    requires
        class <= MAX_CLASS,
        len <= MAX_LEN,
    ensures
        word_len(pack(class, len)) == len,
        word_class(pack(class, len)) == class,
        pack(word_class(pack(class, len)), word_len(pack(class, len))) == pack(class, len),
{
}

/// Every header word is the packing of its own class and length.
pub proof fn lemma_unpack_pack(word: u16)
    ensures
        pack(word_class(word), word_len(word)) == word,
        word_class(word) <= MAX_CLASS,
        word_len(word) <= MAX_LEN,
{
}

/// A capacity is at least 2 and at most 32768, and no two classes share one.
pub proof fn lemma_capacity_bounds(class: nat)
    requires
        1 <= class <= MAX_CLASS,
    ensures
        2 <= pow2(class) <= 32768,
        is_capacity(pow2(class)),
{
    lemma2_to64();
}

/// The lowest set bit of `2^class` is bit `class`.
proof fn lemma_trailing_zeros_of_pow2(class: nat)
    requires
        class < 64,
    ensures
        u64_trailing_zeros(pow2(class) as u64) == class,
{
    let k = class as u64;
    let x: u64 = 1u64 << k;
    assert(x == pow2(class)) by {
        lemma_u64_pow2_no_overflow(class);
        lemma_u64_shl_is_mul(1u64, k);
    }
    let t = u64_trailing_zeros(x);
    axiom_u64_trailing_zeros(x);
    assert(x != 0) by (bit_vector)
        requires
            k < 64,
            x == 1u64 << k,
    ;
    let t64 = t as u64;
    assert(t64 == k) by (bit_vector)
        requires
            k < 64,
            t64 < 64,
            x == 1u64 << k,
            (x >> t64) & 1u64 == 1u64,
    ;
}

/// The length held in a header word.
pub fn unpack_len(word: u16) -> (len: usize)
    ensures
        len == word_len(word),
        len <= MAX_LEN,
{
    let low: u16 = word & LEN_MASK;
    assert(word & 0x0fffu16 == word % 4096u16) by (bit_vector);
    low as usize
}

/// The capacity class held in a header word.
pub fn unpack_class(word: u16) -> (class: u16)
    ensures
        class == word_class(word),
        class <= MAX_CLASS,
{
    let high: u16 = word >> CAP_OFFSET;
    assert(word >> 12u16 == word / 4096u16) by (bit_vector);
    high
}

/// The number of slots that a header word stands for.
pub fn unpack_capacity(word: u16) -> (capacity: usize)
    ensures
        capacity == word_capacity(word),
        capacity <= 32768,
{
    let class: u16 = unpack_class(word);
    if class == 0 {
        unpack_len(word)
    } else {
        proof {
            lemma2_to64();
            lemma_usize_shl_is_mul(1usize, class as usize);
        }
        1usize << class
    }
}

/// The header word with the given class and length.
pub fn pack_word(class: u16, len: u16) -> (word: u16)
    requires
        class <= MAX_CLASS,
        len <= MAX_LEN,
    ensures
        word == pack(class as nat, len as nat),
        word_class(word) == class,
        word_len(word) == len,
{
    let word: u16 = (class << CAP_OFFSET) | len;
    assert(word == class * 4096 + len) by (bit_vector)
        requires
            class <= 15,
            len <= 4095,
            word == (class << 12u16) | len,
    ;
    word
}

/// Tells whether a block can have the given capacity.
pub fn is_valid_capacity(capacity: usize) -> (valid: bool)
    ensures
        valid == is_capacity(capacity as nat),
{
    if capacity < 2 || capacity > 32768 {
        proof {
            lemma2_to64();
            if is_capacity(capacity as nat) {
                let class: nat = choose|class: nat|
                    1 <= class <= MAX_CLASS && capacity as nat == pow2(class);
                assert(2 <= pow2(class) <= 32768);
            }
        }
        return false;
    }
    let below: usize = capacity - 1;
    let valid: bool = capacity & below == 0;
    proof {
        lemma2_to64();
        if valid {
            assert(capacity == 2 || capacity == 4 || capacity == 8 || capacity == 16 || capacity
                == 32 || capacity == 64 || capacity == 128 || capacity == 256 || capacity == 512
                || capacity == 1024 || capacity == 2048 || capacity == 4096 || capacity == 8192
                || capacity == 16384 || capacity == 32768) by (bit_vector)
                requires
                    2 <= capacity <= 32768,
                    below == capacity - 1,
                    capacity & below == 0,
            ;
            let class: nat = if capacity == 2 {
                1
            } else if capacity == 4 {
                2
            } else if capacity == 8 {
                3
            } else if capacity == 16 {
                4
            } else if capacity == 32 {
                5
            } else if capacity == 64 {
                6
            } else if capacity == 128 {
                7
            } else if capacity == 256 {
                8
            } else if capacity == 512 {
                9
            } else if capacity == 1024 {
                10
            } else if capacity == 2048 {
                11
            } else if capacity == 4096 {
                12
            } else if capacity == 8192 {
                13
            } else if capacity == 16384 {
                14
            } else {
                15
            };
            assert(1 <= class <= MAX_CLASS && capacity as nat == pow2(class));
        } else if is_capacity(capacity as nat) {
            let class: nat = choose|class: nat|
                1 <= class <= MAX_CLASS && capacity as nat == pow2(class);
            assert(capacity & below == 0) by (bit_vector)
                requires
                    below == capacity - 1,
                    capacity == 2 || capacity == 4 || capacity == 8 || capacity == 16 || capacity
                        == 32 || capacity == 64 || capacity == 128 || capacity == 256 || capacity
                        == 512 || capacity == 1024 || capacity == 2048 || capacity == 4096
                        || capacity == 8192 || capacity == 16384 || capacity == 32768,
            ;
        }
    }
    valid
}

/// The class of a capacity: the exponent `class` with `2^class == capacity`.
pub fn class_of(capacity: usize) -> (class: u16)
    requires
        is_capacity(capacity as nat),
    ensures
        1 <= class <= MAX_CLASS,
        pow2(class as nat) == capacity,
{
    let ghost k: nat = choose|k: nat| 1 <= k <= MAX_CLASS && capacity as nat == pow2(k);
    proof {
        lemma_trailing_zeros_of_pow2(k);
    }
    let zeros: u32 = (capacity as u64).trailing_zeros();
    zeros as u16
}

} // verus!
