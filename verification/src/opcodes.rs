//! Numeric operation codes and full encodings for the supported instruction
//! set.
//!
//! Register-format (R) values are 6-bit function codes placed in bits 5..=0 of
//! the machine word; immediate-format (I) and jump-format (J) values are 6-bit
//! opcodes placed in bits 31..=26. The special values are complete 32-bit
//! machine words emitted verbatim.

use vstd::prelude::*;

verus! {

pub const NOP: u32 = 0x00000000;

pub const RFE: u32 = 0x42000001;

pub const HLT: u32 = 0x42000010;

pub const SYSCALL: u32 = 0x68000000;

pub const R_ADD: u32 = 0b100000;

pub const R_ADDU: u32 = 0b100001;

pub const R_AND: u32 = 0b100100;

pub const R_NOR: u32 = 0b100111;

pub const R_OR: u32 = 0b100101;

pub const R_SUB: u32 = 0b100010;

pub const R_SUBU: u32 = 0b100011;

pub const R_XOR: u32 = 0b100110;

pub const R_SLT: u32 = 0b101010;

pub const R_SLTU: u32 = 0b101001;

pub const R_DIV: u32 = 0b011010;

pub const R_DIVU: u32 = 0b011011;

pub const R_MULT: u32 = 0b011000;

pub const R_MULTU: u32 = 0b011001;

pub const R_SLL: u32 = 0b000000;

pub const R_SRA: u32 = 0b000011;

pub const R_SRAV: u32 = 0b000111;

pub const R_SRLV: u32 = 0b000110;

pub const R_JARL: u32 = 0b001001;

pub const R_JR: u32 = 0b001000;

pub const R_MFHI: u32 = 0b010000;

pub const R_MFLO: u32 = 0b010010;

pub const R_MTHI: u32 = 0b010001;

pub const R_MTLO: u32 = 0b010011;

pub const I_ADDI: u32 = 0b001000;

pub const I_ADDIU: u32 = 0b001001;

pub const I_ANDI: u32 = 0b001100;

pub const I_ORI: u32 = 0b001101;

pub const I_XORI: u32 = 0b001110;

pub const I_SLTI: u32 = 0b001010;

pub const I_SLTIU: u32 = 0b001011;

pub const I_LHI: u32 = 0b011001;

pub const I_LLO: u32 = 0b011000;

pub const I_BEQ: u32 = 0b000100;

pub const I_BNE: u32 = 0b000101;

pub const I_BGTZ: u32 = 0b000111;

pub const I_BLEZ: u32 = 0b000110;

pub const I_LB: u32 = 0b100000;

pub const I_LBU: u32 = 0b100100;

pub const I_LH: u32 = 0b100001;

pub const I_LHU: u32 = 0b100101;

pub const I_LW: u32 = 0b100011;

pub const I_SB: u32 = 0b101000;

pub const I_SH: u32 = 0b101001;

pub const I_SW: u32 = 0b101011;

pub const J_J: u32 = 0b000010;

pub const J_JAL: u32 = 0b000011;

} // verus!
