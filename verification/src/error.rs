//! The ways in which disassembling a line can fail.

use vstd::prelude::*;

verus! {

/// Why a line could not be disassembled.
#[derive(Clone, Copy, Debug, PartialEq, Eq)]
pub enum DisassembleError {
    /// The line is not a binary numeral that fits in 32 bits.
    MalformedInput,
    /// The opcode of the word is not one of the supported instructions.
    UnsupportedInstruction,
}

impl DisassembleError {
    /// The text that describes the error.
    pub open spec fn message_text(self) -> Seq<char> {
        match self {
            DisassembleError::MalformedInput => "malformed binary numeral"@,
            DisassembleError::UnsupportedInstruction => "unsupported instruction"@,
        }
    }

    /// A short description of the error, for display.
    pub fn message(&self) -> (text: &'static str)
        ensures
            text@ == self.message_text(),
    {
        match self {
            DisassembleError::MalformedInput => "malformed binary numeral",
            DisassembleError::UnsupportedInstruction => "unsupported instruction",
        }
    }
}

} // verus!
