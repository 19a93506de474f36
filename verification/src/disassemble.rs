//! Disassembly of words, of lines and of whole programs.

use crate::error::DisassembleError;
use crate::fields::opcode_of;
use crate::instruction::{decode, decoded};
use crate::numeral::{parse_word, parsed};
use vstd::prelude::*;

verus! {

/// The assembly text of the instruction that `word` encodes, or the error
/// for a word that encodes none.
pub open spec fn word_text(word: u32) -> Result<Seq<char>, DisassembleError> {
    match decoded(word) {
        Ok(instruction) => Ok(instruction.text()),
        Err(error) => Err(error),
    }
}

/// The assembly text for one line of input: the line is read as a binary
/// numeral, and the word it stands for is disassembled.
pub open spec fn line_text(line: Seq<char>) -> Result<Seq<char>, DisassembleError> {
    match parsed(line) {
        Ok(word) => word_text(word),
        Err(error) => Err(error),
    }
}

/// A result of disassembly with the line taken as its sequence of characters.
pub open spec fn text_of(result: Result<String, DisassembleError>) -> Result<
    Seq<char>,
    DisassembleError,
> {
    match result {
        Ok(line) => Ok(line@),
        Err(error) => Err(error),
    }
}

/// The lines of a program, each as its sequence of characters.
pub open spec fn texts(lines: Seq<String>) -> Seq<Seq<char>> {
    Seq::new(lines.len(), |i: int| lines[i]@)
}

/// Every line of `input` can be disassembled.
pub open spec fn all_lines_disassemble(input: Seq<Seq<char>>) -> bool {
    forall|i: int| 0 <= i < input.len() ==> (#[trigger] line_text(input[i])) is Ok
}

/// Line `k` is the first line of `input` that cannot be disassembled.
pub open spec fn is_first_failure(input: Seq<Seq<char>>, k: int) -> bool {
    &&& 0 <= k < input.len()
    &&& line_text(input[k]) is Err
    &&& forall|j: int| 0 <= j < k ==> (#[trigger] line_text(input[j])) is Ok
}

/// The assembly text of a program, line for line: as many lines as the input
/// has, each the text for the input line at the same place.
pub open spec fn program_lines(input: Seq<Seq<char>>) -> Seq<Seq<char>>
    recommends
        all_lines_disassemble(input),
{
    Seq::new(input.len(), |i: int| line_text(input[i])->Ok_0)
}

/// The lines written one after the other, each followed by a line break.
pub open spec fn terminated(lines: Seq<Seq<char>>) -> Seq<char>
    decreases lines.len(),
{
    if lines.len() == 0 {
        Seq::empty()
    } else {
        terminated(lines.drop_last()) + lines.last() + seq!['\n']
    }
}

/// A word has assembly text exactly when its opcode is one of the eight
/// supported ones; any other word is an unsupported instruction.
pub proof fn lemma_word_text_supported(word: u32)
    ensures
        word_text(word) is Ok <==> opcode_of(word) <= 7,
        opcode_of(word) > 7 ==> word_text(word) == Err::<Seq<char>, DisassembleError>(
            DisassembleError::UnsupportedInstruction,
        ),
{
}

/// Disassembles one instruction word into its line of assembly text. The
/// line carries no line break.
pub fn disassemble_word(word: u32) -> (result: Result<String, DisassembleError>)
    ensures
        text_of(result) == word_text(word),
        result is Ok <==> opcode_of(word) <= 7,
{
    match decode(word) {
        Ok(instruction) => Ok(instruction.mnemonic()),
        Err(error) => Err(error),
    }
}

/// Disassembles one line of input, a word written as a binary numeral, into
/// its line of assembly text.
pub fn disassemble_line(line: &str) -> (result: Result<String, DisassembleError>)
    ensures
        text_of(result) == line_text(line@),
{
    match parse_word(line) {
        Ok(word) => disassemble_word(word),
        Err(error) => Err(error),
    }
}

/// Disassembles a program, one word per line. When every line can be
/// disassembled, the output has one line for each line of input, in the same
/// order. Otherwise the run fails as a whole, with the error of the first
/// line that cannot be disassembled.
pub fn disassemble_lines(lines: &Vec<String>) -> (result: Result<Vec<String>, DisassembleError>)
    ensures
        result is Ok <==> all_lines_disassemble(texts(lines@)),
        result matches Ok(output) ==> texts(output@) == program_lines(texts(lines@)),
        result matches Err(error) ==> exists|k: int|
            is_first_failure(texts(lines@), k) && #[trigger] line_text(texts(lines@)[k]) == Err::<
                Seq<char>,
                DisassembleError,
            >(error),
{
    let ghost input = texts(lines@);
    let mut output: Vec<String> = Vec::new();
    let mut i: usize = 0;
    while i < lines.len()
        invariant
            i <= lines@.len(),
            input == texts(lines@),
            output@.len() == i,
            forall|j: int|
                0 <= j < i ==> #[trigger] line_text(input[j]) == Ok::<Seq<char>, DisassembleError>(
                    output@[j]@,
                ),
        decreases lines@.len() - i,
    {
        match disassemble_line(lines[i].as_str()) {
            Ok(text) => {
                output.push(text);
            },
            Err(error) => {
                assert(is_first_failure(input, i as int));
                return Err(error);
            },
        }
        i += 1;
    }
    Ok(output)
}

/// Disassembles a program into the text of its output: the assembly text of
/// each line of input, in the order of the input, each followed by a line
/// break. The run fails as a whole, with no output, on the first line that
/// cannot be disassembled.
pub fn disassemble_program(lines: &Vec<String>) -> (result: Result<String, DisassembleError>)
    ensures
        result is Ok <==> all_lines_disassemble(texts(lines@)),
        result matches Ok(text) ==> text@ == terminated(program_lines(texts(lines@))),
        result matches Err(error) ==> exists|k: int|
            is_first_failure(texts(lines@), k) && #[trigger] line_text(texts(lines@)[k]) == Err::<
                Seq<char>,
                DisassembleError,
            >(error),
{
    let output = match disassemble_lines(lines) {
        Ok(output) => output,
        Err(error) => {
            return Err(error);
        },
    };
    let ghost written = texts(output@);
    let mut text = String::new();
    let mut i: usize = 0;
    while i < output.len()
        invariant
            i <= output@.len(),
            written == texts(output@),
            text@ == terminated(written.take(i as int)),
        decreases output@.len() - i,
    {
        proof {
            reveal_strlit("\n");
            assert(written.take(i + 1).drop_last() =~= written.take(i as int));
        }
        text.append(output[i].as_str());
        text.append("\n");
        i += 1;
    }
    assert(written.take(output@.len() as int) =~= written);
    Ok(text)
}

} // verus!
