//! Disassembler for a small MIPS-like instruction set.
//!
//! A 32-bit instruction word is cut into its bit fields, the fields are read
//! according to the opcode, and the instruction is written out as one line of
//! assembly text. Every function carries a contract over plain mathematical
//! values, and Verus proves each body against its contract.

pub mod decimal;
pub mod disassemble;
pub mod error;
pub mod fields;
pub mod instruction;
pub mod line_breaks;
pub mod numeral;
pub mod registers;
pub mod twos_complement;
