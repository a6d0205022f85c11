//! The operand bundle of an instruction: register indices, a shift amount
//! and the immediate/target operand, read from an already-normalized token
//! list.
//!
//! Operand layout depends on the operation: multiply/divide/jump-register
//! take `rs` (and `rt`), move-from-hi/lo take `rd, rs`, shifts take
//! `rd, rs, shamt`, branches take their registers and then a target that is
//! either a numeric literal or a symbol name, and so on. The spec functions
//! here state, token list in hand, exactly which bundle comes out.

use vstd::prelude::*;

use std::collections::VecDeque;

use crate::errors::SyntaxError;
use crate::instruction::InstructionType;
use crate::opcodes;
use crate::strutil::all_digits;
use crate::strutil::all_digits_exec;
use crate::strutil::all_hex_digits;
use crate::strutil::dec_u32_spec;
use crate::strutil::dec_value;
use crate::strutil::hex_value;
use crate::strutil::parse_dec_u32;
use crate::strutil::parse_hex_u32;
use crate::strutil::parse_signed_dec;
use crate::strutil::signed_dec_spec;
use crate::strutil::starts_with_str;
use crate::strutil::strip_all;
use crate::strutil::strip_prefix_all;
use crate::tag_resolution::log_or_resolve;
use crate::tag_resolution::Tag;
use crate::tag_resolution::TagContext;

verus! {

/// Operands of one instruction; `imm` doubles as the jump target for
/// jump-format instructions.
#[derive(Debug)]
pub struct ArgumentBundle {
    pub rs: u32,
    pub rt: u32,
    pub rd: u32,
    pub sham: u32,
    pub imm: Tag,
}

/// The views of a token list.
pub open spec fn tok_views(toks: Seq<&str>) -> Seq<Seq<char>> {
    toks.map_values(|t: &str| t@)
}

/// Register-format operations whose first operand is `rs` (multiply, divide
/// and jump-register).
pub open spec fn is_rs_first_func(func: u32) -> bool {
    func == opcodes::R_MULT || func == opcodes::R_MULTU || func == opcodes::R_DIV || func
        == opcodes::R_DIVU || func == opcodes::R_JR
}

/// Register-format shift operations, which take a shift amount in place of
/// `rt`.
pub open spec fn is_shift_func(func: u32) -> bool {
    func == opcodes::R_SLL || func == opcodes::R_SRA || func == opcodes::R_SRAV || func
        == opcodes::R_SRLV
}

/// The `(rs, rt, rd, sham)` fields a register-format token list yields, or
/// `None` when the list is too short or a register token is not a numeral.
pub open spec fn r_bundle_spec(toks: Seq<Seq<char>>, func: u32) -> Option<(u32, u32, u32, u32)> {
    if is_rs_first_func(func) {
        if toks.len() >= 1 && dec_u32_spec(toks[0]) is Some {
            let rs = dec_u32_spec(toks[0]).unwrap();
            if func == opcodes::R_JR {
                Some((rs, 0u32, 0u32, 0u32))
            } else if toks.len() >= 2 && dec_u32_spec(toks[1]) is Some {
                Some((rs, dec_u32_spec(toks[1]).unwrap(), 0u32, 0u32))
            } else {
                None
            }
        } else {
            None
        }
    } else {
        if toks.len() >= 2 && dec_u32_spec(toks[0]) is Some && dec_u32_spec(toks[1]) is Some {
            let rd = dec_u32_spec(toks[0]).unwrap();
            let rs = dec_u32_spec(toks[1]).unwrap();
            if func == opcodes::R_MFHI || func == opcodes::R_MFLO {
                Some((rs, 0u32, rd, 0u32))
            } else if is_shift_func(func) {
                if toks.len() >= 3 && dec_u32_spec(toks[2]) is Some {
                    Some((rs, 0u32, rd, dec_u32_spec(toks[2]).unwrap()))
                } else {
                    None
                }
            } else {
                if toks.len() >= 3 && dec_u32_spec(toks[2]) is Some {
                    Some((rs, dec_u32_spec(toks[2]).unwrap(), rd, 0u32))
                } else {
                    None
                }
            }
        } else {
            None
        }
    }
}

/// An all-digit branch/jump target that fits the signed 32-bit range.
pub open spec fn lit_cand_ok(t: Seq<char>) -> bool {
    t.len() > 0 && all_digits(t) && dec_value(t) <= 0x7fff_ffff
}

/// Whether a branch/jump target token can be read: an all-digit token must
/// be a literal in range, anything else is taken as a symbol name.
pub open spec fn cand_ok(t: Seq<char>) -> bool {
    !all_digits(t) || lit_cand_ok(t)
}

/// How reading a branch/jump target token relates the symbol table before
/// and after, and which operand value comes out.
pub open spec fn cand_outcome(
    t: Seq<char>,
    old_map: Map<Seq<char>, Option<u32>>,
    new_map: Map<Seq<char>, Option<u32>>,
    imm: Tag,
) -> bool {
    if all_digits(t) {
        &&& lit_cand_ok(t)
        &&& new_map == old_map
        &&& imm == Tag::Imm(dec_value(t) as u32, false)
    } else {
        &&& new_map == if old_map.contains_key(t) {
            old_map
        } else {
            old_map.insert(t, None)
        }
        &&& match imm {
            Tag::Resolved(v) => new_map.contains_key(t) && new_map[t] == Some(v),
            Tag::BuildPending(s) => s@ == t && new_map.contains_key(t) && new_map[t] is None,
            Tag::Imm(_, _) => false,
        }
    }
}

/// An immediate literal of the remaining immediate-format operations:
/// hexadecimal when `0x`/`0X`-prefixed, otherwise signed decimal. Yields the
/// 16-bit-field candidate's 32-bit pattern and sign.
pub open spec fn i_literal_spec(t: Seq<char>) -> Option<(u32, bool)> {
    if t.len() >= 2 && (t.subrange(0, 2) == "0x"@ || t.subrange(0, 2) == "0X"@) {
        let d = strip_prefix_all(strip_prefix_all(t, "0x"@), "0X"@);
        if d.len() > 0 && all_hex_digits(d) && hex_value(d) <= 0x7fff_ffff {
            Some((hex_value(d) as u32, false))
        } else {
            None
        }
    } else {
        signed_dec_spec(t)
    }
}

/// Whether an immediate-format token list can be read at all.
pub open spec fn i_ok(toks: Seq<Seq<char>>, func: u32) -> bool {
    if func == opcodes::I_BGTZ || func == opcodes::I_BLEZ {
        toks.len() >= 2 && dec_u32_spec(toks[0]) is Some && cand_ok(toks[1])
    } else if func == opcodes::I_BNE || func == opcodes::I_BEQ {
        toks.len() >= 3 && dec_u32_spec(toks[0]) is Some && dec_u32_spec(toks[1]) is Some
            && cand_ok(toks[2])
    } else {
        toks.len() >= 3 && dec_u32_spec(toks[0]) is Some && dec_u32_spec(toks[1]) is Some
            && i_literal_spec(toks[2]) is Some
    }
}

/// The bundle an immediate-format token list yields, together with the
/// symbol-table effect of reading its target.
pub open spec fn i_bundle(
    toks: Seq<Seq<char>>,
    func: u32,
    old_map: Map<Seq<char>, Option<u32>>,
    new_map: Map<Seq<char>, Option<u32>>,
    b: ArgumentBundle,
) -> bool {
    &&& b.rd == 0
    &&& b.sham == 0
    &&& if func == opcodes::I_BGTZ || func == opcodes::I_BLEZ {
        &&& toks.len() >= 2
        &&& dec_u32_spec(toks[0]) == Some(b.rs)
        &&& b.rt == 0
        &&& cand_outcome(toks[1], old_map, new_map, b.imm)
    } else if func == opcodes::I_BNE || func == opcodes::I_BEQ {
        &&& toks.len() >= 3
        &&& dec_u32_spec(toks[0]) == Some(b.rs)
        &&& dec_u32_spec(toks[1]) == Some(b.rt)
        &&& cand_outcome(toks[2], old_map, new_map, b.imm)
    } else {
        &&& toks.len() >= 3
        &&& dec_u32_spec(toks[0]) == Some(b.rt)
        &&& dec_u32_spec(toks[1]) == Some(b.rs)
        &&& new_map == old_map
        &&& (i_literal_spec(toks[2]) matches Some(p) && b.imm == Tag::Imm(p.0, p.1))
    }
}

/// Whether a jump-format token list can be read.
pub open spec fn j_ok(toks: Seq<Seq<char>>) -> bool {
    toks.len() >= 1 && cand_ok(toks[0])
}

/// The bundle a jump-format token list yields.
pub open spec fn j_bundle(
    toks: Seq<Seq<char>>,
    old_map: Map<Seq<char>, Option<u32>>,
    new_map: Map<Seq<char>, Option<u32>>,
    b: ArgumentBundle,
) -> bool {
    &&& b.rs == 0
    &&& b.rt == 0
    &&& b.rd == 0
    &&& b.sham == 0
    &&& toks.len() >= 1
    &&& cand_outcome(toks[0], old_map, new_map, b.imm)
}

/// Whether a token list can be read under the given format and operation.
pub open spec fn bundle_ok(toks: Seq<Seq<char>>, itype: InstructionType, func: u32) -> bool {
    match itype {
        InstructionType::I => i_ok(toks, func),
        InstructionType::R => r_bundle_spec(toks, func) is Some,
        InstructionType::J => j_ok(toks),
        InstructionType::Special => false,
    }
}

/// The bundle a token list yields under the given format and operation, and
/// the symbol-table effect of reading it.
pub open spec fn bundle_spec(
    toks: Seq<Seq<char>>,
    itype: InstructionType,
    func: u32,
    old_map: Map<Seq<char>, Option<u32>>,
    new_map: Map<Seq<char>, Option<u32>>,
    b: ArgumentBundle,
) -> bool {
    match itype {
        InstructionType::I => i_bundle(toks, func, old_map, new_map, b),
        InstructionType::R => {
            &&& new_map == old_map
            &&& r_bundle_spec(toks, func) == Some((b.rs, b.rt, b.rd, b.sham))
            &&& b.imm == Tag::Imm(0, false)
        },
        InstructionType::J => j_bundle(toks, old_map, new_map, b),
        InstructionType::Special => false,
    }
}

/// Reads a branch/jump target token: an all-digit token becomes a literal,
/// anything else goes through the symbol table.
fn read_candidate(t: &str, ctx: &mut TagContext) -> (r: Result<Tag, SyntaxError>)
    requires
        old(ctx).wf(),
    ensures
        final(ctx).wf(),
        match r {
            Ok(imm) => cand_outcome(t@, old(ctx)@, final(ctx)@, imm),
            Err(_) => !cand_ok(t@) && final(ctx)@ == old(ctx)@,
        },
{
    if all_digits_exec(t) {
        match parse_dec_u32(t) {
            Some(v) => {
                if v <= 0x7fff_ffff {
                    Ok(Tag::Imm(v, false))
                } else {
                    Err(SyntaxError::BadNumber(String::from_str(t)))
                }
            },
            None => Err(SyntaxError::BadNumber(String::from_str(t))),
        }
    } else {
        Ok(log_or_resolve(ctx, t))
    }
}

/// Reads an immediate literal: hexadecimal when `0x`/`0X`-prefixed,
/// otherwise signed decimal.
fn read_i_literal(t: &str) -> (r: Option<(u32, bool)>)
    ensures
        r == i_literal_spec(t@),
{
    if starts_with_str(t, "0x") || starts_with_str(t, "0X") {
        proof {
            reveal_strlit("0x");
            reveal_strlit("0X");
        }
        let stripped = strip_all(strip_all(t, "0x"), "0X");
        match parse_hex_u32(stripped) {
            Some(v) => if v <= 0x7fff_ffff {
                Some((v, false))
            } else {
                None
            },
            None => None,
        }
    } else {
        proof {
            reveal_strlit("0x");
            reveal_strlit("0X");
        }
        parse_signed_dec(t)
    }
}

impl ArgumentBundle {
    /// The all-zero bundle carried by instructions without operands.
    pub fn default() -> (r: Self)
        ensures
            r == (ArgumentBundle { rs: 0u32, rt: 0u32, rd: 0u32, sham: 0u32, imm: Tag::Imm(0, false) }),
    {
        ArgumentBundle { rs: 0, rt: 0, rd: 0, sham: 0, imm: Tag::Imm(0, false) }
    }

    /// Reads the operands of one instruction from its token list.
    pub fn construct(arg_vec: VecDeque<&str>, itype: &InstructionType, func: u32, ctx: &mut TagContext) -> (r:
        Result<Self, SyntaxError>)
        requires
            old(ctx).wf(),
            !(itype is Special),
        ensures
            final(ctx).wf(),
            match r {
                Ok(b) => bundle_spec(tok_views(arg_vec@), *itype, func, old(ctx)@, final(ctx)@, b),
                Err(_) => !bundle_ok(tok_views(arg_vec@), *itype, func) && final(ctx)@ == old(
                    ctx,
                )@,
            },
    {
        match itype {
            InstructionType::I => Self::construct_I(arg_vec, func, ctx),
            InstructionType::R => Self::construct_R(arg_vec, func),
            InstructionType::J => Self::construct_J(arg_vec, ctx),
            InstructionType::Special => {
                proof {
                    assert(false);
                }
                Err(SyntaxError::MalformedLine)
            },
        }
    }

    /// Reads register-format operands.
    #[allow(non_snake_case)]
    fn construct_R(mut arg_vec: VecDeque<&str>, func: u32) -> (r: Result<Self, SyntaxError>)
        ensures
            match r {
                Ok(b) => r_bundle_spec(tok_views(arg_vec@), func) == Some((b.rs, b.rt, b.rd, b.sham))
                    && b.imm == Tag::Imm(0, false),
                Err(_) => r_bundle_spec(tok_views(arg_vec@), func) is None,
            },
    {
        let ghost toks = tok_views(arg_vec@);
        if func == opcodes::R_MULT || func == opcodes::R_MULTU || func == opcodes::R_DIV || func
            == opcodes::R_DIVU || func == opcodes::R_JR {
            let t0 = match arg_vec.pop_front() {
                Some(t) => t,
                None => {
                    return Err(SyntaxError::MalformedLine);
                },
            };
            let rs = match parse_dec_u32(t0) {
                Some(v) => v,
                None => {
                    return Err(SyntaxError::BadNumber(String::from_str(t0)));
                },
            };
            let rt: u32 = if func != opcodes::R_JR {
                let t1 = match arg_vec.pop_front() {
                    Some(t) => t,
                    None => {
                        return Err(SyntaxError::MalformedLine);
                    },
                };
                match parse_dec_u32(t1) {
                    Some(v) => v,
                    None => {
                        return Err(SyntaxError::BadNumber(String::from_str(t1)));
                    },
                }
            } else {
                0
            };
            Ok(ArgumentBundle { rs, rt, rd: 0, sham: 0, imm: Tag::Imm(0, false) })
        } else {
            let t0 = match arg_vec.pop_front() {
                Some(t) => t,
                None => {
                    return Err(SyntaxError::MalformedLine);
                },
            };
            let rd = match parse_dec_u32(t0) {
                Some(v) => v,
                None => {
                    return Err(SyntaxError::BadNumber(String::from_str(t0)));
                },
            };
            let t1 = match arg_vec.pop_front() {
                Some(t) => t,
                None => {
                    return Err(SyntaxError::MalformedLine);
                },
            };
            let rs = match parse_dec_u32(t1) {
                Some(v) => v,
                None => {
                    return Err(SyntaxError::BadNumber(String::from_str(t1)));
                },
            };
            if func == opcodes::R_MFHI || func == opcodes::R_MFLO {
                return Ok(ArgumentBundle { rs, rt: 0, rd, sham: 0, imm: Tag::Imm(0, false) });
            }
            let t2 = match arg_vec.pop_front() {
                Some(t) => t,
                None => {
                    return Err(SyntaxError::MalformedLine);
                },
            };
            let third = match parse_dec_u32(t2) {
                Some(v) => v,
                None => {
                    return Err(SyntaxError::BadNumber(String::from_str(t2)));
                },
            };
            if func == opcodes::R_SLL || func == opcodes::R_SRA || func == opcodes::R_SRAV || func
                == opcodes::R_SRLV {
                Ok(ArgumentBundle { rs, rt: 0, rd, sham: third, imm: Tag::Imm(0, false) })
            } else {
                Ok(ArgumentBundle { rs, rt: third, rd, sham: 0, imm: Tag::Imm(0, false) })
            }
        }
    }

    /// Reads immediate-format operands.
    #[allow(non_snake_case)]
    fn construct_I(mut arg_vec: VecDeque<&str>, func: u32, ctx: &mut TagContext) -> (r: Result<
        Self,
        SyntaxError,
    >)
        requires
            old(ctx).wf(),
        ensures
            final(ctx).wf(),
            match r {
                Ok(b) => i_bundle(tok_views(arg_vec@), func, old(ctx)@, final(ctx)@, b),
                Err(_) => !i_ok(tok_views(arg_vec@), func) && final(ctx)@ == old(ctx)@,
            },
    {
        let ghost toks = tok_views(arg_vec@);
        if func == opcodes::I_BGTZ || func == opcodes::I_BLEZ {
            let t0 = match arg_vec.pop_front() {
                Some(t) => t,
                None => {
                    return Err(SyntaxError::MalformedLine);
                },
            };
            let rs = match parse_dec_u32(t0) {
                Some(v) => v,
                None => {
                    return Err(SyntaxError::BadNumber(String::from_str(t0)));
                },
            };
            let t1 = match arg_vec.pop_front() {
                Some(t) => t,
                None => {
                    return Err(SyntaxError::MalformedLine);
                },
            };
            let imm = match read_candidate(t1, ctx) {
                Ok(tag) => tag,
                Err(e) => {
                    return Err(e);
                },
            };
            Ok(ArgumentBundle { rs, rt: 0, rd: 0, sham: 0, imm })
        } else if func == opcodes::I_BNE || func == opcodes::I_BEQ {
            let t0 = match arg_vec.pop_front() {
                Some(t) => t,
                None => {
                    return Err(SyntaxError::MalformedLine);
                },
            };
            let rs = match parse_dec_u32(t0) {
                Some(v) => v,
                None => {
                    return Err(SyntaxError::BadNumber(String::from_str(t0)));
                },
            };
            let t1 = match arg_vec.pop_front() {
                Some(t) => t,
                None => {
                    return Err(SyntaxError::MalformedLine);
                },
            };
            let rt = match parse_dec_u32(t1) {
                Some(v) => v,
                None => {
                    return Err(SyntaxError::BadNumber(String::from_str(t1)));
                },
            };
            let t2 = match arg_vec.pop_front() {
                Some(t) => t,
                None => {
                    return Err(SyntaxError::MalformedLine);
                },
            };
            let imm = match read_candidate(t2, ctx) {
                Ok(tag) => tag,
                Err(e) => {
                    return Err(e);
                },
            };
            Ok(ArgumentBundle { rs, rt, rd: 0, sham: 0, imm })
        } else {
            let t0 = match arg_vec.pop_front() {
                Some(t) => t,
                None => {
                    return Err(SyntaxError::MalformedLine);
                },
            };
            let rt = match parse_dec_u32(t0) {
                Some(v) => v,
                None => {
                    return Err(SyntaxError::BadNumber(String::from_str(t0)));
                },
            };
            let t1 = match arg_vec.pop_front() {
                Some(t) => t,
                None => {
                    return Err(SyntaxError::MalformedLine);
                },
            };
            let rs = match parse_dec_u32(t1) {
                Some(v) => v,
                None => {
                    return Err(SyntaxError::BadNumber(String::from_str(t1)));
                },
            };
            let t2 = match arg_vec.pop_front() {
                Some(t) => t,
                None => {
                    return Err(SyntaxError::MalformedLine);
                },
            };
            let imm = match read_i_literal(t2) {
                Some(p) => Tag::Imm(p.0, p.1),
                None => {
                    return Err(SyntaxError::BadNumber(String::from_str(t2)));
                },
            };
            Ok(ArgumentBundle { rs, rt, rd: 0, sham: 0, imm })
        }
    }

    /// Reads the jump-format target operand.
    #[allow(non_snake_case)]
    fn construct_J(mut arg_vec: VecDeque<&str>, ctx: &mut TagContext) -> (r: Result<
        Self,
        SyntaxError,
    >)
        requires
            old(ctx).wf(),
        ensures
            final(ctx).wf(),
            match r {
                Ok(b) => j_bundle(tok_views(arg_vec@), old(ctx)@, final(ctx)@, b),
                Err(_) => !j_ok(tok_views(arg_vec@)) && final(ctx)@ == old(ctx)@,
            },
    {
        let ghost toks = tok_views(arg_vec@);
        let t0 = match arg_vec.pop_front() {
            Some(t) => t,
            None => {
                return Err(SyntaxError::MalformedLine);
            },
        };
        let imm = match read_candidate(t0, ctx) {
            Ok(tag) => tag,
            Err(e) => {
                return Err(e);
            },
        };
        Ok(ArgumentBundle { rs: 0, rt: 0, rd: 0, sham: 0, imm })
    }
}

} // verus!
