//! The bit fields of an instruction word.
//!
//! From the most significant bit down, a word holds the opcode in six bits and
//! three register indices of five bits each. The low sixteen bits are the
//! immediate, a two's-complement integer, and the low twenty-six bits are the
//! jump address. All fields are read from the same word, whatever its opcode.

use crate::twos_complement::{signed_value, to_twos_complement};
use vstd::arithmetic::power2::{lemma2_to64, pow2};
use vstd::prelude::*;

verus! {

/// The `width` bits of `word` that start at bit `low`, as a number.
pub open spec fn bit_field(word: u32, low: nat, width: nat) -> nat {
    (word as nat / pow2(low)) % pow2(width)
}

/// The opcode: bits 31 to 26.
pub open spec fn opcode_of(word: u32) -> nat {
    bit_field(word, 26, 6)
}

/// The first source register: bits 25 to 21.
pub open spec fn rs_of(word: u32) -> nat {
    bit_field(word, 21, 5)
}

/// The second source register: bits 20 to 16.
pub open spec fn rt_of(word: u32) -> nat {
    bit_field(word, 16, 5)
}

/// The destination register: bits 15 to 11.
pub open spec fn rd_of(word: u32) -> nat {
    bit_field(word, 11, 5)
}

/// The immediate: bits 15 to 0, read in two's complement.
pub open spec fn immediate_of(word: u32) -> int {
    signed_value(bit_field(word, 0, 16), 16)
}

/// The jump address: bits 25 to 0, unsigned.
pub open spec fn address_of(word: u32) -> nat {
    bit_field(word, 0, 26)
}

/// The fields in plain arithmetic, with the bounds that their widths give.
pub proof fn lemma_field_values(word: u32)
    ensures
        opcode_of(word) == word as nat / 0x400_0000,
        opcode_of(word) < 64,
        rs_of(word) == (word as nat / 0x20_0000) % 32,
        rt_of(word) == (word as nat / 0x1_0000) % 32,
        rd_of(word) == (word as nat / 0x800) % 32,
        immediate_of(word) == signed_value(word as nat % 0x1_0000, 16),
        -32768 <= immediate_of(word) <= 32767,
        address_of(word) == word as nat % 0x400_0000,
{
    lemma2_to64();
}

/// The opcode of `word`.
pub fn opcode(word: u32) -> (value: u32)
    ensures
        value == opcode_of(word),
        value < 64,
{
    proof {
        lemma_field_values(word);
        assert(word >> 26 == word / 0x400_0000) by (bit_vector);
    }
    word >> 26
}

/// The index of the first source register of `word`.
pub fn rs(word: u32) -> (value: u32)
    ensures
        value == rs_of(word),
        value < 32,
{
    proof {
        lemma_field_values(word);
        assert((word >> 21) & 0x1F == (word / 0x20_0000) % 32) by (bit_vector);
    }
    (word >> 21) & 0x1F
}

/// The index of the second source register of `word`.
pub fn rt(word: u32) -> (value: u32)
    ensures
        value == rt_of(word),
        value < 32,
{
    proof {
        lemma_field_values(word);
        assert((word >> 16) & 0x1F == (word / 0x1_0000) % 32) by (bit_vector);
    }
    (word >> 16) & 0x1F
}

/// The index of the destination register of `word`.
pub fn rd(word: u32) -> (value: u32)
    ensures
        value == rd_of(word),
        value < 32,
{
    proof {
        lemma_field_values(word);
        assert((word >> 11) & 0x1F == (word / 0x800) % 32) by (bit_vector);
    }
    (word >> 11) & 0x1F
}

/// The immediate of `word`, sign-extended from its sixteen bits.
pub fn immediate(word: u32) -> (value: i32)
    ensures
        value == immediate_of(word),
        -32768 <= value <= 32767,
        (value as int) % 65536 == word as nat % 65536,
{
    let field: u32 = word & 0xFFFF;
    proof {
        lemma_field_values(word);
        assert(word & 0xFFFF == word % 0x1_0000) by (bit_vector);
        crate::twos_complement::lemma_signed_value_sixteen(field as nat);
    }
    to_twos_complement(field, 16)
}

/// The jump address of `word`.
pub fn address(word: u32) -> (value: u32)
    ensures
        value == address_of(word),
        value < 0x400_0000,
{
    proof {
        lemma_field_values(word);
        assert(word & 0x3FFFFFF == word % 0x400_0000) by (bit_vector);
    }
    word & 0x3FFFFFF
}

} // verus!
