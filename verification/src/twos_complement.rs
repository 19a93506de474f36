//! Two's-complement reading of a bit field.

use vstd::arithmetic::div_mod::{lemma_mod_breakdown, lemma_mod_multiples_vanish, lemma_small_mod};
use vstd::arithmetic::power2::{lemma2_to64, lemma_pow2_pos, lemma_pow2_unfold, pow2};
use vstd::bits::{
    lemma_u32_low_bits_mask_is_mod, lemma_u32_pow2_no_overflow, lemma_u32_shl_is_mul,
    lemma_u32_shr_is_div,
};
use vstd::prelude::*;

verus! {

/// The integer that the low `bits` bits of `n` stand for in two's complement:
/// the field itself while its top bit is clear, the field less `2^bits` once
/// the top bit is set. Bits of `n` above the field are not looked at.
pub open spec fn signed_value(n: nat, bits: nat) -> int
    recommends
        1 <= bits,
{
    let field = n % pow2(bits);
    if field < pow2((bits - 1) as nat) {
        field as int
    } else {
        field - pow2(bits)
    }
}

/// A signed value lies in the range of a `bits`-bit two's-complement integer.
pub proof fn lemma_signed_value_range(n: nat, bits: nat)
    requires
        1 <= bits,
    ensures
        -pow2((bits - 1) as nat) <= signed_value(n, bits) < pow2((bits - 1) as nat),
{
    lemma_pow2_unfold(bits);
    lemma_pow2_pos((bits - 1) as nat);
}

/// A signed value is congruent to the field it was read from, modulo `2^bits`:
/// reducing it again gives the field back.
pub proof fn lemma_signed_value_round_trip(n: nat, bits: nat)
    requires
        1 <= bits,
    ensures
        signed_value(n, bits) % (pow2(bits) as int) == n % pow2(bits),
{
    let modulus = pow2(bits) as int;
    let field = (n % pow2(bits)) as int;
    lemma_pow2_pos(bits);
    lemma_small_mod(field as nat, modulus as nat);
    if field >= pow2((bits - 1) as nat) {
        lemma_mod_multiples_vanish(-1, field, modulus);
    }
}

/// The 16-bit case: every 16-bit field reads as an integer from -32768 to
/// 32767, and that integer reduced modulo 65536 is the field again.
pub proof fn lemma_signed_value_sixteen(v: nat)
    requires
        v < 65536,
    ensures
        -32768 <= signed_value(v, 16) <= 32767,
        signed_value(v, 16) % 65536 == v,
{
    lemma2_to64();
}

/// Reads the low `bits` bits of `n` as a two's-complement integer.
pub fn to_twos_complement(n: u32, bits: u32) -> (value: i32)
    requires
        1 <= bits <= 32,
    ensures
        value == signed_value(n as nat, bits as nat),
        -pow2((bits - 1) as nat) <= value < pow2((bits - 1) as nat),
        (value as int) % (pow2(bits as nat) as int) == n as nat % pow2(bits as nat),
{
    let shift: u32 = bits - 1;
    let sign_mask: u32 = 1u32 << shift;
    proof {
        lemma_u32_pow2_no_overflow(shift as nat);
        lemma_u32_shl_is_mul(1u32, shift);
    }
    let magnitude: u32 = n & (sign_mask - 1);
    let negative: bool = n & sign_mask != 0;
    proof {
        let half = pow2(shift as nat);
        let field = n as nat % pow2(bits as nat);
        assert(magnitude == n as nat % half) by {
            lemma_u32_low_bits_mask_is_mod(n, shift as nat);
        }
        assert(negative == ((n as nat / half) % 2 == 1)) by {
            assert((n & (1u32 << shift) != 0) == ((n >> shift) & 1 == 1)) by (bit_vector)
                requires
                    shift < 32,
            ;
            let top = n >> shift;
            assert(top & 1 == top % 2) by (bit_vector);
            lemma_u32_shr_is_div(n, shift);
        }
        assert(field == half * ((n as nat / half) % 2) + n as nat % half) by {
            lemma_pow2_unfold(bits as nat);
            lemma_mod_breakdown(n as int, half as int, 2);
        }
        assert(pow2(bits as nat) == 2 * half) by {
            lemma_pow2_unfold(bits as nat);
        }
        assert(negative ==> field == half + magnitude) by (nonlinear_arith)
            requires
                field == half * ((n as nat / half) % 2) + n as nat % half,
                negative == ((n as nat / half) % 2 == 1),
                magnitude == n as nat % half,
        ;
        assert(!negative ==> field == magnitude) by (nonlinear_arith)
            requires
                field == half * ((n as nat / half) % 2) + n as nat % half,
                negative == ((n as nat / half) % 2 == 1),
                magnitude == n as nat % half,
        ;
        assert(magnitude < half <= 0x8000_0000) by {
            assert((1u32 << shift) <= 0x8000_0000u32) by (bit_vector)
                requires
                    shift < 32,
            ;
        }
        lemma_signed_value_round_trip(n as nat, bits as nat);
    }
    if negative {
        (magnitude as i64 - sign_mask as i64) as i32
    } else {
        magnitude as i32
    }
}

} // verus!
