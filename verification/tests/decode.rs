use disassembler::disassemble::disassemble_word;
use disassembler::error::DisassembleError;
use disassembler::instruction::{decode, Instruction};

fn word(opcode: u32, rs: u32, rt: u32, low: u32) -> u32 {
    (opcode << 26) | (rs << 21) | (rt << 16) | low
}

#[test]
fn decode_add() {
    let instruction = decode(0b000000_01001_01010_01011_00000_100000);
    assert_eq!(instruction, Ok(Instruction::Add { rd: 11, rs: 9, rt: 10 }));
}

#[test]
fn decode_each_opcode() {
    let low = 0x5804;
    assert_eq!(decode(word(0, 1, 2, low)), Ok(Instruction::Add { rd: 11, rs: 1, rt: 2 }));
    assert_eq!(
        decode(word(1, 1, 2, low)),
        Ok(Instruction::Addi { rt: 2, rs: 1, immediate: 0x5804 })
    );
    assert_eq!(decode(word(2, 1, 2, low)), Ok(Instruction::Lw { rt: 2, immediate: 0x5804, rs: 1 }));
    assert_eq!(decode(word(3, 1, 2, low)), Ok(Instruction::Sw { rt: 2, immediate: 0x5804, rs: 1 }));
    assert_eq!(
        decode(word(4, 1, 2, low)),
        Ok(Instruction::Beq { rs: 1, rt: 2, immediate: 0x5804 })
    );
    assert_eq!(decode(word(5, 1, 2, low)), Ok(Instruction::J { address: 0x22_5804 }));
    assert_eq!(decode(word(6, 1, 2, low)), Ok(Instruction::Jal { address: 0x22_5804 }));
    assert_eq!(decode(word(7, 1, 2, low)), Ok(Instruction::Jr { rs: 1 }));
}

#[test]
fn decode_unsupported_opcode() {
    assert_eq!(decode(word(8, 0, 0, 0)), Err(DisassembleError::UnsupportedInstruction));
    assert_eq!(decode(u32::MAX), Err(DisassembleError::UnsupportedInstruction));
}

#[test]
fn mnemonic_of_each_instruction() {
    assert_eq!(Instruction::Add { rd: 11, rs: 9, rt: 10 }.mnemonic(), "add $t3, $t1, $t2");
    assert_eq!(Instruction::Addi { rt: 8, rs: 0, immediate: -1 }.mnemonic(), "addi $t0, $zero, -1");
    assert_eq!(Instruction::Lw { rt: 16, immediate: 8, rs: 29 }.mnemonic(), "lw $s0, 8($sp)");
    assert_eq!(Instruction::Sw { rt: 31, immediate: -4, rs: 30 }.mnemonic(), "sw $ra, -4($fp)");
    assert_eq!(Instruction::Beq { rs: 1, rt: 2, immediate: 5 }.mnemonic(), "beq $at, $v0, 5");
    assert_eq!(Instruction::J { address: 1024 }.mnemonic(), "j 1024");
    assert_eq!(Instruction::Jal { address: 67108863 }.mnemonic(), "jal 67108863");
    assert_eq!(Instruction::Jr { rs: 31 }.mnemonic(), "jr $ra");
}

#[test]
fn word_add() {
    let line = disassemble_word(0b000000_01001_01010_01011_00000_100000);
    assert_eq!(line, Ok("add $t3, $t1, $t2".to_string()));
}

#[test]
fn word_beq() {
    let line = disassemble_word(0b000100_00001_00010_0000000000000101);
    assert_eq!(line, Ok("beq $at, $v0, 5".to_string()));
}

#[test]
fn word_addi_negative_immediate() {
    let line = disassemble_word(0b000001_00000_01000_1111111111111111);
    assert_eq!(line, Ok("addi $t0, $zero, -1".to_string()));
}

#[test]
fn word_lw_and_sw() {
    assert_eq!(disassemble_word(word(2, 29, 16, 8)), Ok("lw $s0, 8($sp)".to_string()));
    assert_eq!(disassemble_word(word(3, 30, 31, 0xFFFC)), Ok("sw $ra, -4($fp)".to_string()));
    assert_eq!(disassemble_word(word(2, 4, 5, 0x8000)), Ok("lw $a1, -32768($a0)".to_string()));
    assert_eq!(disassemble_word(word(3, 4, 5, 0x7FFF)), Ok("sw $a1, 32767($a0)".to_string()));
}

#[test]
fn word_jumps() {
    assert_eq!(disassemble_word(5 << 26), Ok("j 0".to_string()));
    assert_eq!(disassemble_word((5 << 26) | 0x3FF_FFFF), Ok("j 67108863".to_string()));
    assert_eq!(disassemble_word((6 << 26) | 1000), Ok("jal 1000".to_string()));
    assert_eq!(disassemble_word((6 << 26) | 9), Ok("jal 9".to_string()));
    assert_eq!(disassemble_word((6 << 26) | 10), Ok("jal 10".to_string()));
    assert_eq!(disassemble_word(word(7, 31, 0, 0)), Ok("jr $ra".to_string()));
    assert_eq!(disassemble_word(word(7, 31, 17, 0xBEEF)), Ok("jr $ra".to_string()));
}

#[test]
fn word_unsupported_opcode() {
    assert_eq!(disassemble_word(8 << 26), Err(DisassembleError::UnsupportedInstruction));
    assert_eq!(disassemble_word(63 << 26), Err(DisassembleError::UnsupportedInstruction));
    assert_eq!(disassemble_word(u32::MAX), Err(DisassembleError::UnsupportedInstruction));
}

#[test]
fn supported_opcodes_never_fail() {
    let mnemonics = ["add", "addi", "lw", "sw", "beq", "j", "jal", "jr"];
    let lows = [0u32, 1, 0x7FFF, 0x8000, 0xFFFF, 0x1234, 0xF800];
    for opcode in 0u32..8 {
        for rs in 0u32..32 {
            for rt in 0u32..32 {
                for low in lows {
                    let line = disassemble_word(word(opcode, rs, rt, low)).unwrap();
                    let head = format!("{} ", mnemonics[opcode as usize]);
                    assert!(line.starts_with(&head));
                    assert!(!line.contains('\n'));
                }
            }
        }
    }
}

#[test]
fn unsupported_opcodes_always_fail() {
    for opcode in 8u32..64 {
        for low in [0u32, 0x3FF_FFFF, 0x155_5555] {
            assert_eq!(
                disassemble_word((opcode << 26) | low),
                Err(DisassembleError::UnsupportedInstruction)
            );
        }
    }
}

#[test]
fn templates_agree_with_formatting() {
    let names = ["$zero", "$at", "$v0", "$v1", "$a0", "$a1", "$a2", "$a3"];
    for rs in 0u32..8 {
        for rt in 0u32..8 {
            for low in [0u32, 5, 0x0800, 0x7FFF, 0x8000, 0xFFFF, 0x3039] {
                let s = names[rs as usize];
                let t = names[rt as usize];
                let d = names.get((low >> 11) as usize).copied().unwrap_or("");
                let imm = low as u16 as i16;
                let addr = (rs << 21) | (rt << 16) | low;
                if (low >> 11) < 8 {
                    assert_eq!(
                        disassemble_word(word(0, rs, rt, low)).unwrap(),
                        format!("add {}, {}, {}", d, s, t)
                    );
                }
                assert_eq!(
                    disassemble_word(word(1, rs, rt, low)).unwrap(),
                    format!("addi {}, {}, {}", t, s, imm)
                );
                assert_eq!(
                    disassemble_word(word(2, rs, rt, low)).unwrap(),
                    format!("lw {}, {}({})", t, imm, s)
                );
                assert_eq!(
                    disassemble_word(word(3, rs, rt, low)).unwrap(),
                    format!("sw {}, {}({})", t, imm, s)
                );
                assert_eq!(
                    disassemble_word(word(4, rs, rt, low)).unwrap(),
                    format!("beq {}, {}, {}", s, t, imm)
                );
                assert_eq!(disassemble_word(word(5, rs, rt, low)).unwrap(), format!("j {}", addr));
                assert_eq!(
                    disassemble_word(word(6, rs, rt, low)).unwrap(),
                    format!("jal {}", addr)
                );
                assert_eq!(disassemble_word(word(7, rs, rt, low)).unwrap(), format!("jr {}", s));
            }
        }
    }
}

#[test]
fn error_messages() {
    assert_eq!(DisassembleError::UnsupportedInstruction.message(), "unsupported instruction");
    assert_eq!(DisassembleError::MalformedInput.message(), "malformed binary numeral");
}
