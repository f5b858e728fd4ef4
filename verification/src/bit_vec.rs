//! Single-word bit operations.
//!
//! A machine word holds `USIZE_BIT_SIZE` binary cells. Cell 0 is the most
//! significant bit, so a word printed in binary reads in cell order from
//! left to right. This module is the only place where that convention is
//! decided.

use vstd::prelude::*;

verus! {

/// Number of cells packed into one machine word.
pub const USIZE_BIT_SIZE: usize = usize::BITS as usize;

/// Whether cell `index` of the word `cell` is set.
pub open spec fn bit_is_set(cell: usize, index: usize) -> bool {
    (cell >> ((USIZE_BIT_SIZE - 1 - index) as usize)) & 1usize == 1usize
}

/// The cells of a word, in cell order: entry `i` tells whether cell `i` is set.
pub open spec fn bits(cell: usize) -> Seq<bool> {
    Seq::new(USIZE_BIT_SIZE as nat, |i: int| bit_is_set(cell, i as usize))
}

/// No cell of the zero word is set.
pub proof fn lemma_zero_word_is_clear()
    ensures
        bits(0usize) == Seq::new(USIZE_BIT_SIZE as nat, |i: int| false),
{
    assert forall|j: usize| j < USIZE_BIT_SIZE implies !#[trigger] bit_is_set(0usize, j) by {
        assert(!bit_is_set(0usize, j)) by (bit_vector)
            requires
                j < USIZE_BIT_SIZE,
        ;
    }
}

/// Reads cell `index` of `cell`: 1 when it is set, 0 when it is clear.
pub fn get_bit(cell: &usize, index: &usize) -> (bit: usize)
    requires
        *index < USIZE_BIT_SIZE,
    ensures
        bit == if bits(*cell)[*index as int] {
            1usize
        } else {
            0usize
        },
{
    let shift: usize = USIZE_BIT_SIZE - *index - 1;
    let word: usize = *cell;
    assert((word >> shift) & 1usize == 0usize || (word >> shift) & 1usize == 1usize)
        by (bit_vector);
    (word >> shift) & 1
}

/// Sets cell `index` of `cell` and leaves every other cell as it was.
pub fn set_bit(cell: &mut usize, index: &usize)
    requires
        *index < USIZE_BIT_SIZE,
    ensures
        bits(*final(cell)) == bits(*old(cell)).update(*index as int, true),
{
    let shift: usize = USIZE_BIT_SIZE - *index - 1;
    let ghost before: usize = *cell;
    let ghost idx: usize = *index;
    *cell |= 1 << shift;
    proof {
        let after: usize = *cell;
        assert forall|j: usize| j < USIZE_BIT_SIZE implies #[trigger] bit_is_set(after, j) == (j
            == idx || bit_is_set(before, j)) by {
            assert(bit_is_set(before | (1usize << ((USIZE_BIT_SIZE - 1 - idx) as usize)), j) == (j
                == idx || bit_is_set(before, j))) by (bit_vector)
                requires
                    j < USIZE_BIT_SIZE,
                    idx < USIZE_BIT_SIZE,
            ;
        }
    }
}

/// Clears cell `index` of `cell` and leaves every other cell as it was.
pub fn unset_bit(cell: &mut usize, index: &usize)
    requires
        *index < USIZE_BIT_SIZE,
    ensures
        bits(*final(cell)) == bits(*old(cell)).update(*index as int, false),
{
    let shift: usize = USIZE_BIT_SIZE - *index - 1;
    let ghost before: usize = *cell;
    let ghost idx: usize = *index;
    *cell &= !(1 << shift);
    proof {
        let after: usize = *cell;
        assert forall|j: usize| j < USIZE_BIT_SIZE implies #[trigger] bit_is_set(after, j) == (j
            != idx && bit_is_set(before, j)) by {
            assert(bit_is_set(before & !(1usize << ((USIZE_BIT_SIZE - 1 - idx) as usize)), j) == (j
                != idx && bit_is_set(before, j))) by (bit_vector)
                requires
                    j < USIZE_BIT_SIZE,
                    idx < USIZE_BIT_SIZE,
            ;
        }
    }
}

/// Two words whose cells agree agree in their `count` lowest bits.
proof fn lemma_low_bits_agree(a: usize, b: usize, count: usize)
    requires
        bits(a) == bits(b),
        count < USIZE_BIT_SIZE,
    ensures
        a & !(!0usize << count) == b & !(!0usize << count),
    decreases count,
{
    if count == 0 {
        assert(a & !(!0usize << 0usize) == b & !(!0usize << 0usize)) by (bit_vector);
    } else {
        let below: usize = (count - 1) as usize;
        let index: usize = (USIZE_BIT_SIZE - 1 - below) as usize;
        lemma_low_bits_agree(a, b, below);
        assert(bit_is_set(b, index) == bits(b)[index as int]);
        assert(a & !(!0usize << count) == b & !(!0usize << count)) by (bit_vector)
            requires
                0 < count < USIZE_BIT_SIZE,
                below == count - 1,
                index == USIZE_BIT_SIZE - 1 - below,
                a & !(!0usize << below) == b & !(!0usize << below),
                bit_is_set(a, index) == bit_is_set(b, index),
        ;
    }
}

/// The cells of a word determine the word: two words with the same cells
/// are the same word.
pub proof fn lemma_bits_determine_word(a: usize, b: usize)
    requires
        bits(a) == bits(b),
    ensures
        a == b,
{
    let top: usize = (USIZE_BIT_SIZE - 1) as usize;
    lemma_low_bits_agree(a, b, top);
    assert(bit_is_set(b, 0usize) == bits(b)[0]);
    assert(a == b) by (bit_vector)
        requires
            top == USIZE_BIT_SIZE - 1,
            a & !(!0usize << top) == b & !(!0usize << top),
            bit_is_set(a, 0usize) == bit_is_set(b, 0usize),
    ;
}

} // verus!
