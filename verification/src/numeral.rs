//! Instruction words written as binary numerals.
//!
//! A line of input holds one word, most significant bit first, in the digits
//! `0` and `1`. A plus sign may stand in front of the digits. The numeral may
//! be shorter or longer than thirty-two digits as long as its value fits in
//! thirty-two bits.

use crate::error::DisassembleError;
use vstd::arithmetic::power2::{lemma2_to64, lemma_pow2_unfold, pow2};
use vstd::prelude::*;
use vstd::string::is_ascii_spec_bytes;

verus! {

/// `c` is one of the two binary digits.
pub open spec fn is_binary_digit(c: char) -> bool {
    c == '0' || c == '1'
}

/// Every character of `digits` is a binary digit.
pub open spec fn all_binary(digits: Seq<char>) -> bool {
    forall|i: int| 0 <= i < digits.len() ==> is_binary_digit(#[trigger] digits[i])
}

/// The number that a run of binary digits stands for, most significant digit
/// first. The empty run stands for zero.
pub open spec fn binary_value(digits: Seq<char>) -> nat
    decreases digits.len(),
{
    if digits.len() == 0 {
        0
    } else {
        2 * binary_value(digits.drop_last()) + if digits.last() == '1' {
            1nat
        } else {
            0nat
        }
    }
}

/// The digits of a numeral: the text without the plus sign that may lead it.
pub open spec fn numeral_digits(text: Seq<char>) -> Seq<char> {
    if text.len() > 0 && text[0] == '+' {
        text.drop_first()
    } else {
        text
    }
}

/// `text` is the binary numeral of a 32-bit word: at least one digit, binary
/// digits only, and a value of at most `u32::MAX`.
pub open spec fn is_word_numeral(text: Seq<char>) -> bool {
    let digits = numeral_digits(text);
    &&& digits.len() > 0
    &&& all_binary(digits)
    &&& binary_value(digits) <= u32::MAX
}

/// The word that `text` stands for, or the error for text that is no numeral
/// of a word.
pub open spec fn parsed(text: Seq<char>) -> Result<u32, DisassembleError> {
    if is_word_numeral(text) {
        Ok(binary_value(numeral_digits(text)) as u32)
    } else {
        Err(DisassembleError::MalformedInput)
    }
}

/// The value of the first `k` digits is at most the value of the whole run.
pub proof fn lemma_binary_value_prefix(digits: Seq<char>, k: int)
    requires
        0 <= k <= digits.len(),
    ensures
        binary_value(digits.take(k)) <= binary_value(digits),
    decreases digits.len(),
{
    if k == digits.len() {
        assert(digits.take(k) =~= digits);
    } else {
        assert(digits.drop_last().take(k) =~= digits.take(k));
        lemma_binary_value_prefix(digits.drop_last(), k);
    }
}

/// A run of `n` binary digits stands for a number below `2^n`.
pub proof fn lemma_binary_value_bound(digits: Seq<char>)
    ensures
        binary_value(digits) < pow2(digits.len()),
    decreases digits.len(),
{
    if digits.len() == 0 {
        lemma2_to64();
    } else {
        lemma_binary_value_bound(digits.drop_last());
        lemma_pow2_unfold(digits.len());
    }
}

/// Every run of one to thirty-two binary digits is the numeral of a word.
pub proof fn lemma_full_width_numeral(text: Seq<char>)
    requires
        1 <= text.len() <= 32,
        all_binary(text),
    ensures
        is_word_numeral(text),
        parsed(text) is Ok,
{
    assert(numeral_digits(text) == text);
    lemma_binary_value_bound(text);
    lemma2_to64();
}

/// Reads one line of input as an instruction word.
pub fn parse_word(line: &str) -> (result: Result<u32, DisassembleError>)
    ensures
        result == parsed(line@),
{
    if !line.is_ascii() {
        proof {
            let bad = choose|i: int|
                0 <= i < line@.len() && !('\0' <= #[trigger] line@[i] <= '\u{7f}');
            let digits = numeral_digits(line@);
            if digits.len() < line@.len() {
                assert(!is_binary_digit(digits[bad - 1]));
            }
        }
        return Err(DisassembleError::MalformedInput);
    }
    let bytes = line.as_bytes();
    let n = bytes.len();
    proof {
        is_ascii_spec_bytes(line);
    }
    let start: usize = if n > 0 && bytes[0] == '+' as u8 {
        1
    } else {
        0
    };
    let ghost digits = numeral_digits(line@);
    assert(digits =~= line@.subrange(start as int, n as int));
    if start == n {
        return Err(DisassembleError::MalformedInput);
    }
    let mut value: u32 = 0;
    let mut i: usize = start;
    while i < n
        invariant
            start <= i <= n,
            n == bytes@.len(),
            n == line@.len(),
            vstd::string::is_ascii(line),
            forall|j: int| 0 <= j < n ==> bytes@[j] == line@[j] as u8,
            digits == line@.subrange(start as int, n as int),
            digits == numeral_digits(line@),
            digits.len() > 0,
            all_binary(digits.take(i - start)),
            value == binary_value(digits.take(i - start)),
        decreases n - i,
    {
        let byte = bytes[i];
        let ghost k = i - start;
        assert(digits.take(k + 1).drop_last() =~= digits.take(k));
        if byte != '0' as u8 && byte != '1' as u8 {
            assert(!is_binary_digit(digits[k]));
            return Err(DisassembleError::MalformedInput);
        }
        if value > 0x7FFF_FFFF {
            proof {
                lemma_binary_value_prefix(digits, k + 1);
            }
            return Err(DisassembleError::MalformedInput);
        }
        value = 2 * value + (byte - '0' as u8) as u32;
        i += 1;
    }
    assert(digits.take(n - start) =~= digits);
    Ok(value)
}

} // verus!
