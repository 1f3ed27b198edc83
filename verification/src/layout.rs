//! The bytes that a block takes as one allocation: the header first, the
//! payload slots right behind it.
//!
//! The header is the counter followed by the 16-bit header word. Its size
//! is rounded up so that the payload, which begins where the header ends,
//! is aligned for the element type without any padding in between.

use vstd::prelude::*;
use vstd::arithmetic::div_mod::{
    lemma_fundamental_div_mod, lemma_mod_decreases, lemma_mod_multiples_basic,
};
use vstd::arithmetic::mul::lemma_mul_is_associative;
use vstd::arithmetic::power::{lemma_pow_adds, lemma_pow_positive, lemma_pow_strictly_increases, pow};
use vstd::arithmetic::power2::{is_pow2, is_pow2_equiv};
use vstd::layout::{align_of, size_of};
use crate::block::CoWecBlock;
use crate::refcnt::RefCnt;

verus! {

/// The size of the header word, in bytes.
pub const WORD_BYTES: usize = 2;

/// The size and alignment of a block's allocation, and where in it the
/// payload begins.
#[derive(Clone, Copy, Debug)]
pub struct BlockLayout {
    /// The size of the allocation, in bytes.
    pub size: usize,
    /// The alignment of the allocation, in bytes.
    pub align: usize,
    /// The offset of the first payload slot, in bytes.
    pub data_offset: usize,
}

/// The least multiple of `align` that is not below `n`.
pub open spec fn round_up(n: nat, align: nat) -> nat
    recommends
        align > 0,
{
    if n % align == 0 {
        n
    } else {
        (n - n % align + align) as nat
    }
}

/// Rounding up gives a multiple of the alignment, at or above the number
/// and less than one alignment above it.
pub proof fn lemma_round_up(n: nat, align: nat)
    requires
        align > 0,
    ensures
        round_up(n, align) % align == 0,
        n <= round_up(n, align) < n + align,
{
    if n % align != 0 {
        let q = (n / align) as int;
        let a = align as int;
        lemma_fundamental_div_mod(n as int, a);
        assert(n - n % align + align == (q + 1) * a) by (nonlinear_arith)
            requires
                n == a * q + (n % align),
                align == a,
        ;
        lemma_mod_multiples_basic(q + 1, a);
    }
}

/// A power of two divides every power of two that is not below it.
proof fn lemma_pow2_divides(small: nat, large: nat)
    requires
        is_pow2(small as int),
        is_pow2(large as int),
        small <= large,
    ensures
        large % small == 0,
{
    is_pow2_equiv(small as int);
    is_pow2_equiv(large as int);
    let i = choose|i: nat| pow(2, i) == small as int;
    let j = choose|j: nat| pow(2, j) == large as int;
    if j < i {
        lemma_pow_strictly_increases(2, j, i);
    }
    let d = (j - i) as nat;
    lemma_pow_adds(2, d, i);
    lemma_pow_positive(2, i);
    lemma_mod_multiples_basic(pow(2, d), small as int);
}

/// A multiple of a multiple is a multiple.
proof fn lemma_multiple_of_multiple(n: nat, large: nat, small: nat)
    requires
        small > 0,
        large > 0,
        n % large == 0,
        large % small == 0,
    ensures
        n % small == 0,
{
    let q = (n / large) as int;
    let m = (large / small) as int;
    lemma_fundamental_div_mod(n as int, large as int);
    lemma_fundamental_div_mod(large as int, small as int);
    lemma_mul_is_associative(small as int, m, q);
    assert(n == (m * q) * small) by (nonlinear_arith)
        requires
            n == large * q,
            large == small * m,
            small * (m * q) == (small * m) * q,
    ;
    lemma_mod_multiples_basic(m * q, small as int);
}

/// The least multiple of `align` that is not below `n`, if it fits.
fn round_up_to(n: usize, align: usize) -> (rounded: Option<usize>)
    requires
        align > 0,
    ensures
        rounded is Some <==> round_up(n as nat, align as nat) <= usize::MAX,
        rounded matches Some(r) ==> r == round_up(n as nat, align as nat),
{
    let rest: usize = n % align;
    if rest == 0 {
        Some(n)
    } else {
        proof {
            lemma_mod_decreases(n as nat, align as nat);
        }
        (n - rest).checked_add(align)
    }
}

impl<R: RefCnt, T> CoWecBlock<R, T> {
    /// The alignment of a block: that of the counter, of the header word or
    /// of an element, whichever is largest.
    pub open spec fn spec_align() -> nat {
        let counter = align_of::<R>();
        let word = WORD_BYTES as nat;
        let elem = align_of::<T>();
        if counter >= word && counter >= elem {
            counter
        } else if word >= elem {
            word
        } else {
            elem
        }
    }

    /// The size of the header, which is the offset of the first payload
    /// slot: the counter, the header word at the next even offset, then
    /// padding up to the alignment of an element and of the block.
    pub open spec fn spec_data_offset() -> nat {
        let word_end = round_up(size_of::<R>(), WORD_BYTES as nat) + WORD_BYTES as nat;
        round_up(round_up(word_end, align_of::<T>()), Self::spec_align())
    }

    /// The size of a block with `capacity` slots: the header and the slots.
    pub open spec fn spec_size(capacity: nat) -> nat {
        Self::spec_data_offset() + capacity * size_of::<T>()
    }

    /// Whether a block with `capacity` slots can be allocated at all: its
    /// size, rounded up to its alignment, must not exceed `isize::MAX`.
    pub open spec fn layout_fits(capacity: nat) -> bool {
        round_up(Self::spec_size(capacity), Self::spec_align()) <= isize::MAX
    }

    /// The payload begins at a multiple of the element's alignment, so no
    /// padding stands between the header and the first slot.
    pub proof fn lemma_payload_aligned()
        ensures
            Self::spec_data_offset() % align_of::<T>() == 0,
            Self::spec_data_offset() % Self::spec_align() == 0,
            Self::spec_align() > 0,
            align_of::<T>() > 0,
    {
        broadcast use vstd::layout::group_align_properties;

        let word_end = round_up(size_of::<R>(), WORD_BYTES as nat) + WORD_BYTES as nat;
        let unpadded = round_up(word_end, align_of::<T>());
        lemma_round_up(unpadded, Self::spec_align());
        assert(is_pow2(WORD_BYTES as int)) by {
            reveal_with_fuel(is_pow2, 3);
        }
        lemma_pow2_divides(align_of::<T>(), Self::spec_align());
        lemma_multiple_of_multiple(Self::spec_data_offset(), Self::spec_align(), align_of::<T>());
    }

    /// The layout of a block with `capacity` slots, or `None` if no such
    /// block can be allocated.
    pub fn try_layout(capacity: usize) -> (layout: Option<BlockLayout>)
        ensures
            layout is Some <==> Self::layout_fits(capacity as nat),
            layout matches Some(l) ==> {
                &&& l.size == Self::spec_size(capacity as nat)
                &&& l.align == Self::spec_align()
                &&& l.data_offset == Self::spec_data_offset()
            },
    {
        let counter_size: usize = core::mem::size_of::<R>();
        let counter_align: usize = core::mem::align_of::<R>();
        let elem_size: usize = core::mem::size_of::<T>();
        let elem_align: usize = core::mem::align_of::<T>();
        let align: usize = if counter_align >= WORD_BYTES && counter_align >= elem_align {
            counter_align
        } else if WORD_BYTES >= elem_align {
            WORD_BYTES
        } else {
            elem_align
        };
        proof {
            Self::lemma_payload_aligned();
            let word_start = round_up(counter_size as nat, WORD_BYTES as nat);
            let unpadded = round_up(word_start + WORD_BYTES as nat, elem_align as nat);
            lemma_round_up(counter_size as nat, WORD_BYTES as nat);
            lemma_round_up(word_start + WORD_BYTES as nat, elem_align as nat);
            lemma_round_up(unpadded, align as nat);
            lemma_round_up(Self::spec_size(capacity as nat), align as nat);
            assert(capacity * elem_size >= 0) by (nonlinear_arith);
        }
        let word_start: usize = match round_up_to(counter_size, WORD_BYTES) {
            Some(n) => n,
            None => { return None; },
        };
        let word_end: usize = match word_start.checked_add(WORD_BYTES) {
            Some(n) => n,
            None => { return None; },
        };
        let unpadded: usize = match round_up_to(word_end, elem_align) {
            Some(n) => n,
            None => { return None; },
        };
        let data_offset: usize = match round_up_to(unpadded, align) {
            Some(n) => n,
            None => { return None; },
        };
        let payload: usize = match capacity.checked_mul(elem_size) {
            Some(n) => n,
            None => { return None; },
        };
        let size: usize = match data_offset.checked_add(payload) {
            Some(n) => n,
            None => { return None; },
        };
        match round_up_to(size, align) {
            Some(padded) => {
                if padded <= isize::MAX as usize {
                    Some(BlockLayout { size, align, data_offset })
                } else {
                    None
                }
            },
            None => None,
        }
    }

    /// The layout of a block with `capacity` slots.
    pub fn layout(capacity: usize) -> (layout: BlockLayout)
        requires
            Self::layout_fits(capacity as nat),
        ensures
            layout.size == Self::spec_size(capacity as nat),
            layout.align == Self::spec_align(),
            layout.data_offset == Self::spec_data_offset(),
    {
        Self::try_layout(capacity).unwrap()
    }
}

} // verus!
