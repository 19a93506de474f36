//! The supported instructions, how a word decodes to one, and how one is
//! written as assembly text.

use crate::decimal::{append_signed, append_unsigned, decimal_digits, decimal_text};
use crate::error::DisassembleError;
use crate::fields::{
    address, address_of, immediate, immediate_of, opcode, opcode_of, rd, rd_of, rs, rs_of, rt,
    rt_of,
};
use crate::registers::{register_name, register_operand};
use vstd::prelude::*;

verus! {

/// One decoded instruction. Each variant holds the operands that its
/// instruction uses and no others: register indices, a signed 16-bit
/// immediate, or a 26-bit jump address.
#[derive(Clone, Copy, Debug, PartialEq, Eq)]
pub enum Instruction {
    /// `add rd, rs, rt` (opcode 0)
    Add { rd: u32, rs: u32, rt: u32 },
    /// `addi rt, rs, immediate` (opcode 1)
    Addi { rt: u32, rs: u32, immediate: i32 },
    /// `lw rt, immediate(rs)` (opcode 2)
    Lw { rt: u32, immediate: i32, rs: u32 },
    /// `sw rt, immediate(rs)` (opcode 3)
    Sw { rt: u32, immediate: i32, rs: u32 },
    /// `beq rs, rt, immediate` (opcode 4)
    Beq { rs: u32, rt: u32, immediate: i32 },
    /// `j address` (opcode 5)
    J { address: u32 },
    /// `jal address` (opcode 6)
    Jal { address: u32 },
    /// `jr rs` (opcode 7)
    Jr { rs: u32 },
}

/// An immediate fits in sixteen bits, sign included.
pub open spec fn is_immediate(value: i32) -> bool {
    -32768 <= value <= 32767
}

impl Instruction {
    /// The operands are in the range of their fields: register indices below
    /// 32, immediates in sixteen bits, addresses in twenty-six.
    pub open spec fn well_formed(self) -> bool {
        match self {
            Instruction::Add { rd, rs, rt } => rd < 32 && rs < 32 && rt < 32,
            Instruction::Addi { rt, rs, immediate } => rt < 32 && rs < 32 && is_immediate(
                immediate,
            ),
            Instruction::Lw { rt, immediate, rs } => rt < 32 && rs < 32 && is_immediate(immediate),
            Instruction::Sw { rt, immediate, rs } => rt < 32 && rs < 32 && is_immediate(immediate),
            Instruction::Beq { rs, rt, immediate } => rs < 32 && rt < 32 && is_immediate(
                immediate,
            ),
            Instruction::J { address } => address < 0x400_0000,
            Instruction::Jal { address } => address < 0x400_0000,
            Instruction::Jr { rs } => rs < 32,
        }
    }

    /// The opcode that selects the instruction.
    pub open spec fn opcode(self) -> nat {
        match self {
            Instruction::Add { .. } => 0,
            Instruction::Addi { .. } => 1,
            Instruction::Lw { .. } => 2,
            Instruction::Sw { .. } => 3,
            Instruction::Beq { .. } => 4,
            Instruction::J { .. } => 5,
            Instruction::Jal { .. } => 6,
            Instruction::Jr { .. } => 7,
        }
    }

    /// The assembly text of the instruction: the mnemonic, a space, and the
    /// operands in the order and punctuation of the instruction's format.
    /// Registers are written as the sigil `$` and the name, immediates and
    /// addresses in decimal.
    pub open spec fn text(self) -> Seq<char> {
        match self {
            Instruction::Add { rd, rs, rt } => "add "@ + register_operand(rd as nat) + ", "@
                + register_operand(rs as nat) + ", "@ + register_operand(rt as nat),
            Instruction::Addi { rt, rs, immediate } => "addi "@ + register_operand(rt as nat) + ", "@
                + register_operand(rs as nat) + ", "@ + decimal_text(immediate as int),
            Instruction::Lw { rt, immediate, rs } => "lw "@ + register_operand(rt as nat) + ", "@
                + decimal_text(immediate as int) + "("@ + register_operand(rs as nat) + ")"@,
            Instruction::Sw { rt, immediate, rs } => "sw "@ + register_operand(rt as nat) + ", "@
                + decimal_text(immediate as int) + "("@ + register_operand(rs as nat) + ")"@,
            Instruction::Beq { rs, rt, immediate } => "beq "@ + register_operand(rs as nat) + ", "@
                + register_operand(rt as nat) + ", "@ + decimal_text(immediate as int),
            Instruction::J { address } => "j "@ + decimal_digits(address as nat),
            Instruction::Jal { address } => "jal "@ + decimal_digits(address as nat),
            Instruction::Jr { rs } => "jr "@ + register_operand(rs as nat),
        }
    }

    /// Writes the instruction as one line of assembly text, without a line
    /// break.
    pub fn mnemonic(&self) -> (line: String)
        requires
            self.well_formed(),
        ensures
            line@ == self.text(),
    {
        match *self {
            Instruction::Add { rd, rs, rt } => {
                let mut line = String::from_str("add ");
                append_register(&mut line, rd);
                line.append(", ");
                append_register(&mut line, rs);
                line.append(", ");
                append_register(&mut line, rt);
                line
            },
            Instruction::Addi { rt, rs, immediate } => {
                let mut line = String::from_str("addi ");
                append_register(&mut line, rt);
                line.append(", ");
                append_register(&mut line, rs);
                line.append(", ");
                append_signed(&mut line, immediate);
                line
            },
            Instruction::Lw { rt, immediate, rs } => {
                let mut line = String::from_str("lw ");
                append_memory_operands(&mut line, rt, immediate, rs);
                line
            },
            Instruction::Sw { rt, immediate, rs } => {
                let mut line = String::from_str("sw ");
                append_memory_operands(&mut line, rt, immediate, rs);
                line
            },
            Instruction::Beq { rs, rt, immediate } => {
                let mut line = String::from_str("beq ");
                append_register(&mut line, rs);
                line.append(", ");
                append_register(&mut line, rt);
                line.append(", ");
                append_signed(&mut line, immediate);
                line
            },
            Instruction::J { address } => {
                let mut line = String::from_str("j ");
                append_unsigned(&mut line, address);
                line
            },
            Instruction::Jal { address } => {
                let mut line = String::from_str("jal ");
                append_unsigned(&mut line, address);
                line
            },
            Instruction::Jr { rs } => {
                let mut line = String::from_str("jr ");
                append_register(&mut line, rs);
                line
            },
        }
    }
}

/// Appends register `r` to `out` as an operand: the sigil and the name.
fn append_register(out: &mut String, r: u32)
    requires
        r < 32,
    ensures
        final(out)@ == old(out)@ + register_operand(r as nat),
{
    let name = register_name(r).unwrap();
    proof {
        reveal_strlit("$");
    }
    out.append("$");
    out.append(name.as_str());
}

/// Appends the operands of a load or store: the register, a comma, the
/// offset, and the base register in parentheses.
fn append_memory_operands(out: &mut String, rt: u32, immediate: i32, rs: u32)
    requires
        rt < 32,
        rs < 32,
    ensures
        final(out)@ == old(out)@ + register_operand(rt as nat) + ", "@ + decimal_text(
            immediate as int,
        ) + "("@ + register_operand(rs as nat) + ")"@,
{
    append_register(out, rt);
    out.append(", ");
    append_signed(out, immediate);
    out.append("(");
    append_register(out, rs);
    out.append(")");
}

/// The instruction that `word` encodes: the opcode selects the variant, and
/// the variant takes its operands from the fields of the word. An opcode
/// above 7 encodes no instruction.
pub open spec fn decoded(word: u32) -> Result<Instruction, DisassembleError> {
    let rs = rs_of(word) as u32;
    let rt = rt_of(word) as u32;
    let rd = rd_of(word) as u32;
    let immediate = immediate_of(word) as i32;
    let address = address_of(word) as u32;
    let opcode = opcode_of(word);
    if opcode == 0 {
        Ok(Instruction::Add { rd, rs, rt })
    } else if opcode == 1 {
        Ok(Instruction::Addi { rt, rs, immediate })
    } else if opcode == 2 {
        Ok(Instruction::Lw { rt, immediate, rs })
    } else if opcode == 3 {
        Ok(Instruction::Sw { rt, immediate, rs })
    } else if opcode == 4 {
        Ok(Instruction::Beq { rs, rt, immediate })
    } else if opcode == 5 {
        Ok(Instruction::J { address })
    } else if opcode == 6 {
        Ok(Instruction::Jal { address })
    } else if opcode == 7 {
        Ok(Instruction::Jr { rs })
    } else {
        Err(DisassembleError::UnsupportedInstruction)
    }
}

/// Decoding succeeds on the eight supported opcodes and on no other, and
/// what it gives is a well-formed instruction of that opcode.
pub proof fn lemma_decoded_supported(word: u32)
    ensures
        decoded(word) is Ok <==> opcode_of(word) <= 7,
        decoded(word) is Err ==> decoded(word) == Err::<Instruction, DisassembleError>(
            DisassembleError::UnsupportedInstruction,
        ),
        decoded(word) matches Ok(instruction) ==> instruction.well_formed()
            && instruction.opcode() == opcode_of(word),
{
    crate::fields::lemma_field_values(word);
}

/// Decodes one instruction word.
pub fn decode(word: u32) -> (result: Result<Instruction, DisassembleError>)
    ensures
        result == decoded(word),
        result is Ok <==> opcode_of(word) <= 7,
        result matches Ok(instruction) ==> instruction.well_formed(),
{
    let rs = rs(word);
    let rt = rt(word);
    let rd = rd(word);
    let immediate = immediate(word);
    let address = address(word);
    match opcode(word) {
        0 => Ok(Instruction::Add { rd, rs, rt }),
        1 => Ok(Instruction::Addi { rt, rs, immediate }),
        2 => Ok(Instruction::Lw { rt, immediate, rs }),
        3 => Ok(Instruction::Sw { rt, immediate, rs }),
        4 => Ok(Instruction::Beq { rs, rt, immediate }),
        5 => Ok(Instruction::J { address }),
        6 => Ok(Instruction::Jal { address }),
        7 => Ok(Instruction::Jr { rs }),
        _ => Err(DisassembleError::UnsupportedInstruction),
    }
}

} // verus!
