//! The in-memory form of one instruction: its format, its function or
//! opcode field, and its operand bundle, read from a normalized line of
//! text.

use vstd::prelude::*;

use std::collections::VecDeque;

use crate::argument_bundle::bundle_ok;
use crate::argument_bundle::bundle_spec;
use crate::argument_bundle::tok_views;
use crate::argument_bundle::ArgumentBundle;
use crate::errors::SyntaxError;
use crate::opcodes;
use crate::strutil::split_any;
use crate::strutil::split_spec;
use crate::strutil::str_eq;
use crate::tag_resolution::Tag;
use crate::tag_resolution::TagContext;

verus! {

/// The four instruction formats: immediate, register, jump, and the special
/// operations that carry their whole machine word in the function field.
#[derive(Debug, Clone, Copy, PartialEq, Eq, Structural)]
pub enum InstructionType {
    I,
    R,
    J,
    Special,
}

/// One decoded instruction, ready for encoding.
#[derive(Debug)]
pub struct Instruction {
    pub itype: InstructionType,
    pub func: u32,
    pub args: ArgumentBundle,
}

/// The function/opcode value and format of each mnemonic the instruction
/// set knows, tried in a fixed order.
pub open spec fn match_func_spec(t: Seq<char>) -> Option<(u32, InstructionType)> {
    if t == "add"@ {
        Some((opcodes::R_ADD, InstructionType::R))
    } else if t == "addu"@ {
        Some((opcodes::R_ADDU, InstructionType::R))
    } else if t == "and"@ {
        Some((opcodes::R_AND, InstructionType::R))
    } else if t == "nor"@ {
        Some((opcodes::R_NOR, InstructionType::R))
    } else if t == "or"@ {
        Some((opcodes::R_OR, InstructionType::R))
    } else if t == "sub"@ {
        Some((opcodes::R_SUB, InstructionType::R))
    } else if t == "subu"@ {
        Some((opcodes::R_SUBU, InstructionType::R))
    } else if t == "xor"@ {
        Some((opcodes::R_XOR, InstructionType::R))
    } else if t == "slt"@ {
        Some((opcodes::R_SLT, InstructionType::R))
    } else if t == "sltu"@ {
        Some((opcodes::R_SLTU, InstructionType::R))
    } else if t == "div"@ {
        Some((opcodes::R_DIV, InstructionType::R))
    } else if t == "divu"@ {
        Some((opcodes::R_DIVU, InstructionType::R))
    } else if t == "mult"@ {
        Some((opcodes::R_MULT, InstructionType::R))
    } else if t == "multu"@ {
        Some((opcodes::R_MULTU, InstructionType::R))
    } else if t == "sll"@ {
        Some((opcodes::R_SLL, InstructionType::R))
    } else if t == "sra"@ {
        Some((opcodes::R_SRA, InstructionType::R))
    } else if t == "srav"@ {
        Some((opcodes::R_SRAV, InstructionType::R))
    } else if t == "srlv"@ {
        Some((opcodes::R_SRLV, InstructionType::R))
    } else if t == "jarl"@ {
        Some((opcodes::R_JARL, InstructionType::R))
    } else if t == "jr"@ {
        Some((opcodes::R_JR, InstructionType::R))
    } else if t == "mfhi"@ {
        Some((opcodes::R_MFHI, InstructionType::R))
    } else if t == "mflo"@ {
        Some((opcodes::R_MFLO, InstructionType::R))
    } else if t == "mthi"@ {
        Some((opcodes::R_MTHI, InstructionType::R))
    } else if t == "mtlo"@ {
        Some((opcodes::R_MTLO, InstructionType::R))
    } else if t == "addi"@ {
        Some((opcodes::I_ADDI, InstructionType::I))
    } else if t == "addiu"@ {
        Some((opcodes::I_ADDIU, InstructionType::I))
    } else if t == "andi"@ {
        Some((opcodes::I_ANDI, InstructionType::I))
    } else if t == "ori"@ {
        Some((opcodes::I_ORI, InstructionType::I))
    } else if t == "xori"@ {
        Some((opcodes::I_XORI, InstructionType::I))
    } else if t == "slti"@ {
        Some((opcodes::I_SLTI, InstructionType::I))
    } else if t == "sltiu"@ {
        Some((opcodes::I_SLTIU, InstructionType::I))
    } else if t == "lhi"@ {
        Some((opcodes::I_LHI, InstructionType::I))
    } else if t == "llo"@ {
        Some((opcodes::I_LLO, InstructionType::I))
    } else if t == "beq"@ {
        Some((opcodes::I_BEQ, InstructionType::I))
    } else if t == "bne"@ {
        Some((opcodes::I_BNE, InstructionType::I))
    } else if t == "bgtz"@ {
        Some((opcodes::I_BGTZ, InstructionType::I))
    } else if t == "blez"@ {
        Some((opcodes::I_BLEZ, InstructionType::I))
    } else if t == "lb"@ {
        Some((opcodes::I_LB, InstructionType::I))
    } else if t == "lbu"@ {
        Some((opcodes::I_LBU, InstructionType::I))
    } else if t == "lh"@ {
        Some((opcodes::I_LH, InstructionType::I))
    } else if t == "lhu"@ {
        Some((opcodes::I_LHU, InstructionType::I))
    } else if t == "lw"@ {
        Some((opcodes::I_LW, InstructionType::I))
    } else if t == "sb"@ {
        Some((opcodes::I_SB, InstructionType::I))
    } else if t == "sh"@ {
        Some((opcodes::I_SH, InstructionType::I))
    } else if t == "sw"@ {
        Some((opcodes::I_SW, InstructionType::I))
    } else if t == "jal"@ {
        Some((opcodes::J_JAL, InstructionType::J))
    } else if t == "j"@ {
        Some((opcodes::J_J, InstructionType::J))
    } else if t == "hlt"@ {
        Some((opcodes::HLT, InstructionType::Special))
    } else if t == "rfe"@ {
        Some((opcodes::RFE, InstructionType::Special))
    } else if t == "nop"@ {
        Some((opcodes::HLT, InstructionType::Special))
    } else if t == "syscall"@ {
        Some((opcodes::SYSCALL, InstructionType::Special))
    } else {
        None
    }
}

/// Finds the function value and format of a mnemonic.
pub fn match_func(op: &str) -> (r: Result<(u32, InstructionType), SyntaxError>)
    ensures
        match r {
            Ok(p) => match_func_spec(op@) == Some(p),
            Err(e) => match_func_spec(op@) is None && (e matches SyntaxError::UnknownOpcode(s)
                && s@ == op@),
        },
{
    if str_eq(op, "add") {
        Ok((opcodes::R_ADD, InstructionType::R))
    } else if str_eq(op, "addu") {
        Ok((opcodes::R_ADDU, InstructionType::R))
    } else if str_eq(op, "and") {
        Ok((opcodes::R_AND, InstructionType::R))
    } else if str_eq(op, "nor") {
        Ok((opcodes::R_NOR, InstructionType::R))
    } else if str_eq(op, "or") {
        Ok((opcodes::R_OR, InstructionType::R))
    } else if str_eq(op, "sub") {
        Ok((opcodes::R_SUB, InstructionType::R))
    } else if str_eq(op, "subu") {
        Ok((opcodes::R_SUBU, InstructionType::R))
    } else if str_eq(op, "xor") {
        Ok((opcodes::R_XOR, InstructionType::R))
    } else if str_eq(op, "slt") {
        Ok((opcodes::R_SLT, InstructionType::R))
    } else if str_eq(op, "sltu") {
        Ok((opcodes::R_SLTU, InstructionType::R))
    } else if str_eq(op, "div") {
        Ok((opcodes::R_DIV, InstructionType::R))
    } else if str_eq(op, "divu") {
        Ok((opcodes::R_DIVU, InstructionType::R))
    } else if str_eq(op, "mult") {
        Ok((opcodes::R_MULT, InstructionType::R))
    } else if str_eq(op, "multu") {
        Ok((opcodes::R_MULTU, InstructionType::R))
    } else if str_eq(op, "sll") {
        Ok((opcodes::R_SLL, InstructionType::R))
    } else if str_eq(op, "sra") {
        Ok((opcodes::R_SRA, InstructionType::R))
    } else if str_eq(op, "srav") {
        Ok((opcodes::R_SRAV, InstructionType::R))
    } else if str_eq(op, "srlv") {
        Ok((opcodes::R_SRLV, InstructionType::R))
    } else if str_eq(op, "jarl") {
        Ok((opcodes::R_JARL, InstructionType::R))
    } else if str_eq(op, "jr") {
        Ok((opcodes::R_JR, InstructionType::R))
    } else if str_eq(op, "mfhi") {
        Ok((opcodes::R_MFHI, InstructionType::R))
    } else if str_eq(op, "mflo") {
        Ok((opcodes::R_MFLO, InstructionType::R))
    } else if str_eq(op, "mthi") {
        Ok((opcodes::R_MTHI, InstructionType::R))
    } else if str_eq(op, "mtlo") {
        Ok((opcodes::R_MTLO, InstructionType::R))
    } else if str_eq(op, "addi") {
        Ok((opcodes::I_ADDI, InstructionType::I))
    } else if str_eq(op, "addiu") {
        Ok((opcodes::I_ADDIU, InstructionType::I))
    } else if str_eq(op, "andi") {
        Ok((opcodes::I_ANDI, InstructionType::I))
    } else if str_eq(op, "ori") {
        Ok((opcodes::I_ORI, InstructionType::I))
    } else if str_eq(op, "xori") {
        Ok((opcodes::I_XORI, InstructionType::I))
    } else if str_eq(op, "slti") {
        Ok((opcodes::I_SLTI, InstructionType::I))
    } else if str_eq(op, "sltiu") {
        Ok((opcodes::I_SLTIU, InstructionType::I))
    } else if str_eq(op, "lhi") {
        Ok((opcodes::I_LHI, InstructionType::I))
    } else if str_eq(op, "llo") {
        Ok((opcodes::I_LLO, InstructionType::I))
    } else if str_eq(op, "beq") {
        Ok((opcodes::I_BEQ, InstructionType::I))
    } else if str_eq(op, "bne") {
        Ok((opcodes::I_BNE, InstructionType::I))
    } else if str_eq(op, "bgtz") {
        Ok((opcodes::I_BGTZ, InstructionType::I))
    } else if str_eq(op, "blez") {
        Ok((opcodes::I_BLEZ, InstructionType::I))
    } else if str_eq(op, "lb") {
        Ok((opcodes::I_LB, InstructionType::I))
    } else if str_eq(op, "lbu") {
        Ok((opcodes::I_LBU, InstructionType::I))
    } else if str_eq(op, "lh") {
        Ok((opcodes::I_LH, InstructionType::I))
    } else if str_eq(op, "lhu") {
        Ok((opcodes::I_LHU, InstructionType::I))
    } else if str_eq(op, "lw") {
        Ok((opcodes::I_LW, InstructionType::I))
    } else if str_eq(op, "sb") {
        Ok((opcodes::I_SB, InstructionType::I))
    } else if str_eq(op, "sh") {
        Ok((opcodes::I_SH, InstructionType::I))
    } else if str_eq(op, "sw") {
        Ok((opcodes::I_SW, InstructionType::I))
    } else if str_eq(op, "jal") {
        Ok((opcodes::J_JAL, InstructionType::J))
    } else if str_eq(op, "j") {
        Ok((opcodes::J_J, InstructionType::J))
    } else if str_eq(op, "hlt") {
        Ok((opcodes::HLT, InstructionType::Special))
    } else if str_eq(op, "rfe") {
        Ok((opcodes::RFE, InstructionType::Special))
    } else if str_eq(op, "nop") {
        Ok((opcodes::HLT, InstructionType::Special))
    } else if str_eq(op, "syscall") {
        Ok((opcodes::SYSCALL, InstructionType::Special))
    } else {
        Err(SyntaxError::UnknownOpcode(String::from_str(op)))
    }
}

impl Instruction {
    /// Reads one instruction from a normalized line: the first token names
    /// the operation, the remaining tokens are its operands.
    pub fn from_line(st: &str, ctx: &mut TagContext) -> (r: Result<Instruction, SyntaxError>)
        requires
            old(ctx).wf(),
        ensures
            final(ctx).wf(),
            ({
                let toks = split_spec(st@, ' ', ',');
                match r {
                    Ok(instr) => match match_func_spec(toks[0]) {
                        Some(p) => {
                            &&& instr.func == p.0
                            &&& instr.itype == p.1
                            &&& if p.1 is Special {
                                &&& final(ctx)@ == old(ctx)@
                                &&& instr.args == (ArgumentBundle {
                                    rs: 0u32,
                                    rt: 0u32,
                                    rd: 0u32,
                                    sham: 0u32,
                                    imm: Tag::Imm(0, false),
                                })
                            } else {
                                bundle_spec(
                                    toks.skip(1),
                                    p.1,
                                    p.0,
                                    old(ctx)@,
                                    final(ctx)@,
                                    instr.args,
                                )
                            }
                        },
                        None => false,
                    },
                    Err(_) => {
                        &&& final(ctx)@ == old(ctx)@
                        &&& match match_func_spec(toks[0]) {
                            Some(p) => !(p.1 is Special) && !bundle_ok(toks.skip(1), p.1, p.0),
                            None => true,
                        }
                    },
                }
            }),
    {
        let tokens = split_any(st, ' ', ',');
        let ghost toks = split_spec(st@, ' ', ',');
        let op = tokens[0].as_str();
        let (func, itype) = match match_func(op) {
            Ok(p) => p,
            Err(e) => {
                return Err(e);
            },
        };
        if itype == InstructionType::Special {
            return Ok(Instruction { itype, func, args: ArgumentBundle::default() });
        }
        let mut rest: VecDeque<&str> = VecDeque::new();
        let mut i: usize = 1;
        let n = tokens.len();
        while i < n
            invariant
                1 <= i <= n,
                n == tokens@.len(),
                n == toks.len(),
                forall|k: int| 0 <= k < n ==> #[trigger] tokens@[k]@ == toks[k],
                rest@.len() == i - 1,
                forall|k: int| 0 <= k < i - 1 ==> #[trigger] rest@[k]@ == toks[k + 1],
            decreases n - i,
        {
            rest.push_back(tokens[i].as_str());
            i += 1;
        }
        proof {
            assert(tok_views(rest@) =~= toks.skip(1));
        }
        let args = match ArgumentBundle::construct(rest, &itype, func, ctx) {
            Ok(b) => b,
            Err(e) => {
                return Err(e);
            },
        };
        Ok(Instruction { itype, func, args })
    }
}

} // verus!
