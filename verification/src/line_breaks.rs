//! Line breaks: the text of an instruction holds none, and the output of a
//! program holds one for each line of input.

use crate::decimal::{decimal_digits, decimal_text, lemma_decimal_digits_are_digits};
use crate::disassemble::{all_lines_disassemble, line_text, program_lines, terminated};
use crate::instruction::{decoded, lemma_decoded_supported, Instruction};
use crate::numeral::parsed;
use crate::registers::{name_of_register, register_operand};
use vstd::prelude::*;

verus! {

/// No character of `text` is a line break.
pub open spec fn is_single_line(text: Seq<char>) -> bool {
    forall|i: int| 0 <= i < text.len() ==> #[trigger] text[i] != '\n'
}

/// Two texts joined hold a line break exactly when one of them does.
pub broadcast proof fn lemma_single_line_concat(a: Seq<char>, b: Seq<char>)
    ensures
        #[trigger] is_single_line(a + b) <==> is_single_line(a) && is_single_line(b),
{
    if is_single_line(a + b) {
        assert forall|i: int| 0 <= i < a.len() implies #[trigger] a[i] != '\n' by {
            assert(a[i] == (a + b)[i]);
        }
        assert forall|i: int| 0 <= i < b.len() implies #[trigger] b[i] != '\n' by {
            assert(b[i] == (a + b)[i + a.len()]);
        }
    }
    if is_single_line(a) && is_single_line(b) {
        assert forall|i: int| 0 <= i < (a + b).len() implies #[trigger] (a + b)[i] != '\n' by {
            if i < a.len() {
                assert((a + b)[i] == a[i]);
            } else {
                assert((a + b)[i] == b[i - a.len()]);
            }
        }
    }
}

/// A register operand holds no line break.
pub proof fn lemma_register_operand_single_line(r: nat)
    requires
        r < 32,
    ensures
        is_single_line(register_operand(r)),
{
    assert(is_single_line(name_of_register(r)));
    assert(is_single_line(seq!['$']));
    lemma_single_line_concat(seq!['$'], name_of_register(r));
}

/// The decimal text of an integer holds no line break.
pub proof fn lemma_decimal_text_single_line(v: int)
    ensures
        is_single_line(decimal_digits(v as nat)),
        is_single_line(decimal_text(v)),
{
    assert forall|n: nat| is_single_line(#[trigger] decimal_digits(n)) by {
        assert forall|i: int| 0 <= i < decimal_digits(n).len() implies #[trigger] decimal_digits(
            n,
        )[i] != '\n' by {
            lemma_decimal_digits_are_digits(n, i);
        }
    }
    if v < 0 {
        assert(is_single_line(seq!['-']));
        lemma_single_line_concat(seq!['-'], decimal_digits((-v) as nat));
    }
}

/// The text of an instruction is one line: it is not empty, and none of its
/// characters is a line break. A program of `n` instructions, each written
/// out and followed by a line break, is therefore a text of exactly `n` lines.
pub proof fn lemma_text_is_one_line(instruction: Instruction)
    requires
        instruction.well_formed(),
    ensures
        instruction.text().len() > 0,
        is_single_line(instruction.text()),
{
    broadcast use lemma_single_line_concat;

    reveal_strlit("add ");
    reveal_strlit("addi ");
    reveal_strlit("lw ");
    reveal_strlit("sw ");
    reveal_strlit("beq ");
    reveal_strlit("j ");
    reveal_strlit("jal ");
    reveal_strlit("jr ");
    reveal_strlit(", ");
    reveal_strlit("(");
    reveal_strlit(")");
    assert(is_single_line(", "@) && is_single_line("("@) && is_single_line(")"@));
    match instruction {
        Instruction::Add { rd, rs, rt } => {
            assert(is_single_line("add "@));
            lemma_register_operand_single_line(rd as nat);
            lemma_register_operand_single_line(rs as nat);
            lemma_register_operand_single_line(rt as nat);
        },
        Instruction::Addi { rt, rs, immediate } => {
            assert(is_single_line("addi "@));
            lemma_register_operand_single_line(rt as nat);
            lemma_register_operand_single_line(rs as nat);
            lemma_decimal_text_single_line(immediate as int);
        },
        Instruction::Lw { rt, immediate, rs } => {
            assert(is_single_line("lw "@));
            lemma_register_operand_single_line(rt as nat);
            lemma_register_operand_single_line(rs as nat);
            lemma_decimal_text_single_line(immediate as int);
        },
        Instruction::Sw { rt, immediate, rs } => {
            assert(is_single_line("sw "@));
            lemma_register_operand_single_line(rt as nat);
            lemma_register_operand_single_line(rs as nat);
            lemma_decimal_text_single_line(immediate as int);
        },
        Instruction::Beq { rs, rt, immediate } => {
            assert(is_single_line("beq "@));
            lemma_register_operand_single_line(rs as nat);
            lemma_register_operand_single_line(rt as nat);
            lemma_decimal_text_single_line(immediate as int);
        },
        Instruction::J { address } => {
            assert(is_single_line("j "@));
            lemma_decimal_text_single_line(address as int);
        },
        Instruction::Jal { address } => {
            assert(is_single_line("jal "@));
            lemma_decimal_text_single_line(address as int);
        },
        Instruction::Jr { rs } => {
            assert(is_single_line("jr "@));
            lemma_register_operand_single_line(rs as nat);
        },
    }
}

/// Whatever a line of input disassembles to is one line of text.
pub proof fn lemma_line_text_is_one_line(line: Seq<char>)
    ensures
        line_text(line) matches Ok(text) ==> text.len() > 0 && is_single_line(text),
{
    if let Ok(word) = parsed(line) {
        lemma_decoded_supported(word);
        if let Ok(instruction) = decoded(word) {
            lemma_text_is_one_line(instruction);
        }
    }
}

/// The number of line breaks in `text`.
pub open spec fn line_breaks(text: Seq<char>) -> nat
    decreases text.len(),
{
    if text.len() == 0 {
        0
    } else {
        line_breaks(text.drop_last()) + if text.last() == '\n' {
            1nat
        } else {
            0nat
        }
    }
}

/// The line breaks of two texts joined are those of the one and those of the
/// other.
pub proof fn lemma_line_breaks_concat(a: Seq<char>, b: Seq<char>)
    ensures
        line_breaks(a + b) == line_breaks(a) + line_breaks(b),
    decreases b.len(),
{
    if b.len() == 0 {
        assert(a + b =~= a);
    } else {
        assert((a + b).drop_last() =~= a + b.drop_last());
        lemma_line_breaks_concat(a, b.drop_last());
    }
}

/// A text that is a single line counts no line break.
pub proof fn lemma_single_line_has_no_break(text: Seq<char>)
    requires
        is_single_line(text),
    ensures
        line_breaks(text) == 0,
    decreases text.len(),
{
    if text.len() > 0 {
        assert forall|i: int| 0 <= i < text.drop_last().len() implies #[trigger] text.drop_last()[i]
            != '\n' by {
            assert(text.drop_last()[i] == text[i]);
        }
        assert(text.last() == text[text.len() - 1]);
        lemma_single_line_has_no_break(text.drop_last());
    }
}

/// Lines without a line break of their own, each written out and followed by
/// a line break, make a text with as many line breaks as there are lines.
pub proof fn lemma_terminated_line_count(lines: Seq<Seq<char>>)
    requires
        forall|i: int| 0 <= i < lines.len() ==> is_single_line(#[trigger] lines[i]),
    ensures
        line_breaks(terminated(lines)) == lines.len(),
    decreases lines.len(),
{
    if lines.len() > 0 {
        let front = lines.drop_last();
        assert forall|i: int| 0 <= i < front.len() implies is_single_line(#[trigger] front[i]) by {
            assert(front[i] == lines[i]);
        }
        lemma_terminated_line_count(front);
        assert(is_single_line(lines[lines.len() - 1]));
        lemma_single_line_has_no_break(lines.last());
        lemma_line_breaks_concat(terminated(front), lines.last());
        lemma_line_breaks_concat(terminated(front) + lines.last(), seq!['\n']);
        assert(line_breaks(seq!['\n']) == 1) by {
            assert(seq!['\n'].drop_last() =~= Seq::<char>::empty());
            reveal_with_fuel(line_breaks, 2);
        }
    }
}

/// The output text of a program whose lines can all be disassembled has
/// exactly one line for each line of input.
pub proof fn lemma_program_line_count(input: Seq<Seq<char>>)
    requires
        all_lines_disassemble(input),
    ensures
        program_lines(input).len() == input.len(),
        line_breaks(terminated(program_lines(input))) == input.len(),
{
    let output = program_lines(input);
    assert forall|i: int| 0 <= i < output.len() implies is_single_line(#[trigger] output[i]) by {
        assert(line_text(input[i]) is Ok);
        lemma_line_text_is_one_line(input[i]);
    }
    lemma_terminated_line_count(output);
}

} // verus!
