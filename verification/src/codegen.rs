//! The encoding engine: turns instructions into 32-bit machine words and
//! walks the two segments, assigning addresses, recording label addresses,
//! enforcing alignment, and checking that the segments do not overlap.
//!
//! The data walk runs first and records every data label's address; the
//! code walk then encodes instruction by instruction, so an instruction may
//! reference a label defined anywhere in the source.

use vstd::prelude::*;

use crate::data::Data;
use crate::data::DType;
use crate::errors::err_view;
use crate::errors::CompileError;
use crate::errors::CompileErrorSpec;
use crate::instruction::Instruction;
use crate::relf_headers::be16;
use crate::relf_headers::be32;
use crate::relf_headers::relf_header_bytes;
use crate::relf_headers::section_header_bytes;
use crate::relf_headers::RelfHeader32;
use crate::relf_headers::SectionHeader32;
use crate::instruction::InstructionType;
use crate::tag_resolution::log_addr;
use crate::tag_resolution::resolve;
use crate::tag_resolution::Tag;
use crate::tag_resolution::TagContext;

verus! {

/// `a - b` on 32 bits, wrapping around zero.
pub open spec fn sub_wrap(a: u32, b: u32) -> u32 {
    if a >= b {
        (a - b) as u32
    } else {
        (a + 0x1_0000_0000 - b) as u32
    }
}

/// The 16-bit program-counter-relative word offset of a branch from `addr`
/// to `target`: the word distance from the instruction after the branch,
/// masked to 16 bits for backward targets.
pub open spec fn pc_rel_offset(target: u32, addr: u32) -> u32 {
    if target < addr {
        (sub_wrap(sub_wrap(target, addr), 4) >> 2) & 0xffff
    } else {
        sub_wrap(sub_wrap(target, addr), 4) >> 2
    }
}

/// The immediate field an operand yields: a literal with its sign bit
/// applied, or the offset to a resolved target; `None` when the operand is
/// a symbol the table has not resolved.
pub open spec fn branch_imm_spec(imm: Tag, addr: u32, ctx: Map<Seq<char>, Option<u32>>) -> Option<
    u32,
> {
    match imm {
        Tag::Imm(v, neg) => Some(
            if neg {
                v | 0x8000
            } else {
                v
            },
        ),
        Tag::Resolved(t) => Some(pc_rel_offset(t, addr)),
        Tag::BuildPending(s) => if ctx.contains_key(s@) && ctx[s@] is Some {
            Some(pc_rel_offset(ctx[s@].unwrap(), addr))
        } else {
            None
        },
    }
}

/// The absolute target a jump operand yields; `None` when unresolved.
pub open spec fn jump_target_spec(imm: Tag, ctx: Map<Seq<char>, Option<u32>>) -> Option<u32> {
    match imm {
        Tag::Imm(v, neg) => Some(
            if neg {
                v | 0x8000
            } else {
                v
            },
        ),
        Tag::Resolved(t) => Some(t),
        Tag::BuildPending(s) => if ctx.contains_key(s@) && ctx[s@] is Some {
            Some(ctx[s@].unwrap())
        } else {
            None
        },
    }
}

/// The name of a pending symbol operand (empty for the other variants).
pub open spec fn pending_name(imm: Tag) -> Seq<char> {
    match imm {
        Tag::BuildPending(s) => s@,
        _ => Seq::empty(),
    }
}

/// A register-format word: `rs` in bits 25..=21, `rt` in 20..=16, `rd` in
/// 15..=11, the shift amount in 10..=6 and the function code in 5..=0.
pub open spec fn encode_r_spec(func: u32, rs: u32, rt: u32, rd: u32, sham: u32) -> u32 {
    ((rs << 21) & 0x03e0_0000) | ((rt << 16) & 0x001f_0000) | ((rd << 11) & 0x0000_f800) | ((sham
        << 6) & 0x0000_07c0) | (func & 0x0000_003f)
}

/// An immediate-format word: the opcode in bits 31..=26, `rs` in 25..=21,
/// `rt` in 20..=16 and the immediate in 15..=0.
pub open spec fn encode_i_spec(func: u32, rs: u32, rt: u32, imm: u32) -> u32 {
    ((func << 26) & 0xfc00_0000) | ((rs << 21) & 0x03e0_0000) | ((rt << 16) & 0x001f_0000) | (imm
        & 0x0000_ffff)
}

/// A jump-format word: the opcode in bits 31..=26 and the word-aligned
/// target shifted down by two, its top six bits dropped, in bits 25..=0.
pub open spec fn encode_j_spec(func: u32, jtarg: u32) -> u32 {
    ((func << 26) & 0xfc00_0000) | ((jtarg >> 2) & 0x03ff_ffff)
}

/// What encoding one instruction at `addr` yields under resolution map
/// `ctx`: its machine word, or the error, checking the register fields
/// first. An immediate that does not fit the 16-bit field is rejected,
/// never truncated.
pub open spec fn compile_single_spec(
    instr: Instruction,
    addr: u32,
    ctx: Map<Seq<char>, Option<u32>>,
) -> Result<u32, CompileErrorSpec> {
    if instr.args.rs >= 32 {
        Err(CompileErrorSpec::RegisterParse("RS"@))
    } else if instr.args.rd >= 32 {
        Err(CompileErrorSpec::RegisterParse("RD"@))
    } else if instr.args.rt >= 32 {
        Err(CompileErrorSpec::RegisterParse("RT"@))
    } else {
        match instr.itype {
            InstructionType::I => match branch_imm_spec(instr.args.imm, addr, ctx) {
                Some(v) => if v > 0xffff {
                    Err(CompileErrorSpec::ImmSize)
                } else {
                    Ok(encode_i_spec(instr.func, instr.args.rs, instr.args.rt, v))
                },
                None => Err(CompileErrorSpec::TagResolution(pending_name(instr.args.imm))),
            },
            InstructionType::R => Ok(
                encode_r_spec(
                    instr.func,
                    instr.args.rs,
                    instr.args.rt,
                    instr.args.rd,
                    instr.args.sham,
                ),
            ),
            InstructionType::J => match jump_target_spec(instr.args.imm, ctx) {
                Some(t) => Ok(encode_j_spec(instr.func, t)),
                None => Err(CompileErrorSpec::TagResolution(pending_name(instr.args.imm))),
            },
            InstructionType::Special => Ok(instr.func),
        }
    }
}

/// The data walk from running address `addr` and table `ctx`: the emitted
/// bytes, the final running address and the table with every data label
/// recorded, or the first alignment error.
pub open spec fn data_pass(
    items: Seq<((String, usize), Option<Data>)>,
    addr: u32,
    ctx: Map<Seq<char>, Option<u32>>,
) -> Result<(Seq<u8>, u32, Map<Seq<char>, Option<u32>>), CompileErrorSpec>
    decreases items.len(),
{
    if items.len() == 0 {
        Ok((Seq::empty(), addr, ctx))
    } else {
        match items[0].1 {
            None => data_pass(items.skip(1), addr, ctx),
            Some(dt) => {
                if dt.dt == DType::Word && addr % 4 != 0 {
                    Err(CompileErrorSpec::AlignmentError(4, addr, dt.tagname@))
                } else if dt.dt == DType::Half && addr % 2 != 0 {
                    Err(CompileErrorSpec::AlignmentError(2, addr, dt.tagname@))
                } else {
                    let addr2 = (((addr + dt.contents@.len()) % 0x1_0000_0000) as u32);
                    match data_pass(items.skip(1), addr2, ctx.insert(dt.tagname@, Some(addr))) {
                        Ok(p) => Ok((dt.contents@ + p.0, p.1, p.2)),
                        Err(e) => Err(e),
                    }
                }
            },
        }
    }
}

/// What the data walk asks of its caller: no label is defined twice, and
/// no running address leaves the 32-bit range.
pub open spec fn data_pass_wf(
    items: Seq<((String, usize), Option<Data>)>,
    addr: u32,
    ctx: Map<Seq<char>, Option<u32>>,
) -> bool
    decreases items.len(),
{
    if items.len() == 0 {
        true
    } else {
        match items[0].1 {
            None => data_pass_wf(items.skip(1), addr, ctx),
            Some(dt) => {
                if (dt.dt == DType::Word && addr % 4 != 0) || (dt.dt == DType::Half && addr % 2
                    != 0) {
                    true
                } else {
                    &&& (ctx.contains_key(dt.tagname@) ==> ctx[dt.tagname@] is None)
                    &&& addr + dt.contents@.len() <= u32::MAX
                    &&& data_pass_wf(
                        items.skip(1),
                        (((addr + dt.contents@.len()) % 0x1_0000_0000) as u32),
                        ctx.insert(dt.tagname@, Some(addr)),
                    )
                }
            },
        }
    }
}

/// The code walk from running address `addr` under resolution map `ctx`:
/// the encoded words in order, or the first encoding error.
pub open spec fn code_pass(
    items: Seq<((String, usize), Option<Instruction>)>,
    addr: u32,
    ctx: Map<Seq<char>, Option<u32>>,
) -> Result<Seq<u32>, CompileErrorSpec>
    decreases items.len(),
{
    if items.len() == 0 {
        Ok(Seq::empty())
    } else {
        match items[0].1 {
            None => code_pass(items.skip(1), addr, ctx),
            Some(instr) => match compile_single_spec(instr, addr, ctx) {
                Ok(w) => match code_pass(items.skip(1), (((addr + 4) % 0x1_0000_0000) as u32), ctx) {
                    Ok(rest) => Ok(seq![w] + rest),
                    Err(e) => Err(e),
                },
                Err(e) => Err(e),
            },
        }
    }
}

/// What the code walk asks of its caller: no running address leaves the
/// 32-bit range.
pub open spec fn code_pass_wf(items: Seq<((String, usize), Option<Instruction>)>, addr: u32) -> bool
    decreases items.len(),
{
    if items.len() == 0 {
        true
    } else {
        match items[0].1 {
            None => code_pass_wf(items.skip(1), addr),
            Some(_) => addr + 4 <= u32::MAX && code_pass_wf(items.skip(1), (addr + 4) as u32),
        }
    }
}

/// The two segments' address ranges are disjoint: one of them is empty,
/// or code starts at or after the data segment's end, or code ends at or
/// before the data segment's base.
pub open spec fn overlap_ok(code_base: u32, code_len: nat, data_base: u32, data_len: nat) -> bool {
    code_len == 0 || data_len == 0 || code_base >= data_base + data_len || 4 * code_len
        + code_base <= data_base
}

/// What a whole assembly run yields: the code words, the data bytes and
/// the final symbol table, or its first error — from the data walk, the
/// code base alignment check, the code walk and the overlap check, in that
/// order.
pub open spec fn compile_spec(
    code_base_addr: u32,
    instr_v: Seq<((String, usize), Option<Instruction>)>,
    data_base_addr: u32,
    data_v: Seq<((String, usize), Option<Data>)>,
    ctx: Map<Seq<char>, Option<u32>>,
) -> Result<(Seq<u32>, Seq<u8>, Map<Seq<char>, Option<u32>>), CompileErrorSpec> {
    match data_pass(data_v, data_base_addr, ctx) {
        Err(e) => Err(e),
        Ok(p) => if code_base_addr % 2 != 0 {
            Err(CompileErrorSpec::AlignmentError(2, code_base_addr, ".text"@))
        } else {
            match code_pass(instr_v, code_base_addr, p.2) {
                Err(e) => Err(e),
                Ok(code) => if overlap_ok(code_base_addr, code.len(), data_base_addr, p.0.len()) {
                    Ok((code, p.0, p.2))
                } else {
                    Err(CompileErrorSpec::SegmentOverlap)
                },
            }
        },
    }
}

/// `a - b`, wrapping around zero.
fn sub_wrap_exec(a: u32, b: u32) -> (r: u32)
    ensures
        r == sub_wrap(a, b),
{
    if a >= b {
        a - b
    } else {
        a + (0xffff_ffffu32 - b) + 1
    }
}

/// The program-counter-relative word offset from `addr` to `target`.
fn pc_rel(target: u32, addr: u32) -> (r: u32)
    ensures
        r == pc_rel_offset(target, addr),
{
    if target < addr {
        (sub_wrap_exec(sub_wrap_exec(target, addr), 4) >> 2) & 0xffff
    } else {
        sub_wrap_exec(sub_wrap_exec(target, addr), 4) >> 2
    }
}

/// Encodes an immediate-format instruction at `addr`.
fn compile_i(instr: &Instruction, addr: u32, ctx: &TagContext) -> (r: Result<u32, CompileError>)
    requires
        ctx.wf(),
    ensures
        match r {
            Ok(w) => branch_imm_spec(instr.args.imm, addr, ctx@) matches Some(v) && v <= 0xffff
                && w == encode_i_spec(instr.func, instr.args.rs, instr.args.rt, v),
            Err(e) => match branch_imm_spec(instr.args.imm, addr, ctx@) {
                Some(v) => v > 0xffff && err_view(e) == CompileErrorSpec::ImmSize,
                None => err_view(e) == CompileErrorSpec::TagResolution(pending_name(instr.args.imm)),
            },
        },
{
    let imm: u32 = match &instr.args.imm {
        Tag::Imm(v, neg) => if *neg {
            *v | 0x8000
        } else {
            *v
        },
        Tag::Resolved(t) => pc_rel(*t, addr),
        Tag::BuildPending(s) => {
            let t = match resolve(ctx, s.clone()) {
                Ok(t) => t,
                Err(e) => {
                    return Err(e);
                },
            };
            pc_rel(t, addr)
        },
    };
    if imm > 0xffff {
        return Err(CompileError::ImmSize);
    }
    Ok(
        ((instr.func << 26) & 0xfc00_0000) | ((instr.args.rs << 21) & 0x03e0_0000) | ((instr.args.rt
            << 16) & 0x001f_0000) | (imm & 0x0000_ffff),
    )
}

/// Encodes a register-format instruction; its word does not depend on the
/// instruction's address.
fn compile_r(instr: &Instruction) -> (r: Result<u32, CompileError>)
    ensures
        r == Ok::<u32, CompileError>(
            encode_r_spec(instr.func, instr.args.rs, instr.args.rt, instr.args.rd, instr.args.sham),
        ),
{
    Ok(
        ((instr.args.rs << 21) & 0x03e0_0000) | ((instr.args.rt << 16) & 0x001f_0000) | ((
        instr.args.rd << 11) & 0x0000_f800) | ((instr.args.sham << 6) & 0x0000_07c0) | (instr.func
            & 0x0000_003f),
    )
}

/// Encodes a jump-format instruction.
fn compile_j(instr: &Instruction, ctx: &TagContext) -> (r: Result<u32, CompileError>)
    requires
        ctx.wf(),
    ensures
        match r {
            Ok(w) => jump_target_spec(instr.args.imm, ctx@) matches Some(t) && w == encode_j_spec(
                instr.func,
                t,
            ),
            Err(e) => jump_target_spec(instr.args.imm, ctx@) is None && err_view(e)
                == CompileErrorSpec::TagResolution(pending_name(instr.args.imm)),
        },
{
    let jtarg: u32 = match &instr.args.imm {
        Tag::Imm(v, neg) => if *neg {
            *v | 0x8000
        } else {
            *v
        },
        Tag::Resolved(t) => *t,
        Tag::BuildPending(s) => match resolve(ctx, s.clone()) {
            Ok(t) => t,
            Err(e) => {
                return Err(e);
            },
        },
    };
    Ok(((instr.func << 26) & 0xfc00_0000) | ((jtarg >> 2) & 0x03ff_ffff))
}

/// Encodes one instruction whose address is `addr`, checking the register
/// fields first: an index of 32 or more cannot be represented in a 5-bit
/// field.
pub fn compile_single(instr: &Instruction, addr: u32, ctx: &TagContext) -> (r: Result<
    u32,
    CompileError,
>)
    requires
        ctx.wf(),
    ensures
        match r {
            Ok(w) => compile_single_spec(*instr, addr, ctx@) == Ok::<u32, CompileErrorSpec>(w),
            Err(e) => compile_single_spec(*instr, addr, ctx@) == Err::<u32, CompileErrorSpec>(
                err_view(e),
            ),
        },
{
    if instr.args.rs >= 32 {
        return Err(CompileError::RegisterParse(String::from_str("RS")));
    }
    if instr.args.rd >= 32 {
        return Err(CompileError::RegisterParse(String::from_str("RD")));
    }
    if instr.args.rt >= 32 {
        return Err(CompileError::RegisterParse(String::from_str("RT")));
    }
    match instr.itype {
        InstructionType::I => compile_i(instr, addr, ctx),
        InstructionType::R => compile_r(instr),
        InstructionType::J => compile_j(instr, ctx),
        InstructionType::Special => Ok(instr.func),
    }
}

/// Runs the two segment walks: the data walk records every data label and
/// serializes the data segment, then the code walk encodes every
/// instruction; finally the two segments are checked for overlap.
pub fn compile(
    code_base_addr: u32,
    instr_v: Vec<((String, usize), Option<Instruction>)>,
    data_base_addr: u32,
    data_v: Vec<((String, usize), Option<Data>)>,
    ctx: &mut TagContext,
) -> (r: Result<(Vec<u32>, Vec<u8>), CompileError>)
    requires
        old(ctx).wf(),
        data_pass_wf(data_v@, data_base_addr, old(ctx)@),
        code_pass_wf(instr_v@, code_base_addr),
    ensures
        final(ctx).wf(),
        match r {
            Ok(p) => compile_spec(code_base_addr, instr_v@, data_base_addr, data_v@, old(ctx)@)
                matches Ok(m) && p.0@ == m.0 && p.1@ == m.1 && final(ctx)@ == m.2,
            Err(e) => compile_spec(code_base_addr, instr_v@, data_base_addr, data_v@, old(ctx)@)
                matches Err(es) && err_view(e) == es,
        },
{
    let mut d_addr = data_base_addr;
    let mut data: Vec<u8> = Vec::new();
    let dn = data_v.len();
    let mut i: usize = 0;
    proof {
        assert(data_v@.skip(0) =~= data_v@);
    }
    while i < dn
        invariant
            i <= dn,
            dn == data_v@.len(),
            ctx.wf(),
            d_addr == data_base_addr + data@.len(),
            data_pass_wf(data_v@.skip(i as int), d_addr, ctx@),
            match data_pass(data_v@.skip(i as int), d_addr, ctx@) {
                Ok(p) => data_pass(data_v@, data_base_addr, old(ctx)@) == Ok::<
                    (Seq<u8>, u32, Map<Seq<char>, Option<u32>>),
                    CompileErrorSpec,
                >((data@ + p.0, p.1, p.2)),
                Err(e) => data_pass(data_v@, data_base_addr, old(ctx)@) == Err::<
                    (Seq<u8>, u32, Map<Seq<char>, Option<u32>>),
                    CompileErrorSpec,
                >(e),
            },
        decreases dn - i,
    {
        let ghost rest = data_v@.skip(i as int);
        let ghost addr0 = d_addr;
        let ghost map0 = ctx@;
        let ghost data0 = data@;
        proof {
            assert(rest[0] == data_v@[i as int]);
            assert(rest.skip(1) =~= data_v@.skip(i as int + 1));
        }
        let item = &data_v[i];
        match &item.1 {
            None => {},
            Some(dt) => {
                if dt.dt == DType::Word && d_addr % 4 != 0 {
                    return Err(CompileError::AlignmentError(4, d_addr, dt.tagname.clone()));
                }
                if dt.dt == DType::Half && d_addr % 2 != 0 {
                    return Err(CompileError::AlignmentError(2, d_addr, dt.tagname.clone()));
                }
                log_addr(ctx, dt.tagname.clone(), d_addr);
                let m = dt.contents.len();
                let mut j: usize = 0;
                while j < m
                    invariant
                        j <= m,
                        m == dt.contents@.len(),
                        data@ == data0 + dt.contents@.take(j as int),
                    decreases m - j,
                {
                    let b = dt.contents[j];
                    data.push(b);
                    j += 1;
                    proof {
                        assert(data0 + dt.contents@.take(j as int) =~= (data0 + dt.contents@.take(
                            j as int - 1,
                        )).push(dt.contents@[j as int - 1]));
                    }
                }
                proof {
                    assert(dt.contents@.take(m as int) =~= dt.contents@);
                }
                d_addr = d_addr + (m as u32);
                proof {
                    let tail = data_pass(rest.skip(1), d_addr, ctx@);
                    if tail is Ok {
                        let p = tail->Ok_0;
                        assert((data0 + dt.contents@) + p.0 =~= data0 + (dt.contents@ + p.0));
                    }
                }
            },
        }
        i += 1;
    }
    proof {
        assert(data_v@.skip(dn as int) =~= Seq::<((String, usize), Option<Data>)>::empty());
        let p0 = data_pass(data_v@.skip(dn as int), d_addr, ctx@);
        assert(p0 == Ok::<(Seq<u8>, u32, Map<Seq<char>, Option<u32>>), CompileErrorSpec>(
            (Seq::<u8>::empty(), d_addr, ctx@),
        ));
        assert(data@ + Seq::<u8>::empty() =~= data@);
    }
    let ghost dmap = ctx@;
    let ghost dbytes = data@;
    let ghost data_end = d_addr;

    if code_base_addr % 2 != 0 {
        return Err(CompileError::AlignmentError(2, code_base_addr, String::from_str(".text")));
    }

    let mut c_addr = code_base_addr;
    let mut code: Vec<u32> = Vec::new();
    let cn = instr_v.len();
    let mut k: usize = 0;
    proof {
        assert(instr_v@.skip(0) =~= instr_v@);
    }
    while k < cn
        invariant
            k <= cn,
            cn == instr_v@.len(),
            ctx.wf(),
            ctx@ == dmap,
            data@ == dbytes,
            d_addr == data_end,
            data_end == data_base_addr + dbytes.len(),
            code_base_addr % 2 == 0,
            data_pass(data_v@, data_base_addr, old(ctx)@) == Ok::<
                (Seq<u8>, u32, Map<Seq<char>, Option<u32>>),
                CompileErrorSpec,
            >((dbytes, data_end, dmap)),
            c_addr == code_base_addr + 4 * code@.len(),
            code_pass_wf(instr_v@.skip(k as int), c_addr),
            match code_pass(instr_v@.skip(k as int), c_addr, dmap) {
                Ok(ws) => code_pass(instr_v@, code_base_addr, dmap) == Ok::<
                    Seq<u32>,
                    CompileErrorSpec,
                >(code@ + ws),
                Err(e) => code_pass(instr_v@, code_base_addr, dmap) == Err::<
                    Seq<u32>,
                    CompileErrorSpec,
                >(e),
            },
        decreases cn - k,
    {
        let ghost rest = instr_v@.skip(k as int);
        let ghost code0 = code@;
        proof {
            assert(rest[0] == instr_v@[k as int]);
            assert(rest.skip(1) =~= instr_v@.skip(k as int + 1));
        }
        let item = &instr_v[k];
        match &item.1 {
            None => {},
            Some(instr) => {
                let w = match compile_single(instr, c_addr, ctx) {
                    Ok(w) => w,
                    Err(e) => {
                        return Err(e);
                    },
                };
                code.push(w);
                c_addr = c_addr + 4;
                proof {
                    let tail = code_pass(rest.skip(1), c_addr, dmap);
                    if tail is Ok {
                        let ws = tail->Ok_0;
                        assert((code0 + seq![w]) + ws =~= code0 + (seq![w] + ws));
                        assert(code0.push(w) =~= code0 + seq![w]);
                    }
                }
            },
        }
        k += 1;
    }
    proof {
        assert(instr_v@.skip(cn as int) =~= Seq::<((String, usize), Option<Instruction>)>::empty());
        assert(code@ + Seq::<u32>::empty() =~= code@);
    }

    // An empty segment intersects nothing; otherwise the code segment must
    // start at or after the data segment's end, or end at or before the
    // data segment's base.
    if !(code.len() == 0 || data.len() == 0 || code_base_addr >= d_addr || c_addr
        <= data_base_addr) {
        return Err(CompileError::SegmentOverlap);
    }
    Ok((code, data))
}

/// The code words in order, each as its four big-endian bytes.
pub open spec fn words_be(code: Seq<u32>) -> Seq<u8>
    decreases code.len(),
{
    if code.len() == 0 {
        Seq::empty()
    } else {
        be32(code[0]) + words_be(code.skip(1))
    }
}

/// The 52-byte file header of an image whose entry point is `entry`:
/// magic, 32-bit class, big-endian data encoding, version 1, zero OS/ABI
/// fields, program headers at offset 0x34 with two 32-byte entries, and no
/// section headers.
pub open spec fn file_header_bytes(entry: u32) -> Seq<u8> {
    be32(0x7f454c46) + seq![0x01u8, 0x02u8, 0x01u8, 0u8, 0u8] + Seq::new(7, |i: int| 0u8) + be16(
        0x02,
    ) + be16(0x08) + be32(0x1) + be32(entry) + be32(0x0034) + be32(0) + be32(0) + be16(0x34) + be16(
        0x20,
    ) + be16(0x02) + be16(0) + be16(0) + be16(0)
}

/// A 32-byte load-segment descriptor: type 1, the given offset, the
/// segment's base as both its virtual and physical address, the given size
/// as both file and memory size, the given flags, and no alignment field.
pub open spec fn load_header_bytes(offset: u32, vaddr: u32, size: u32, flags: u32) -> Seq<u8> {
    be32(0x00000001) + be32(offset) + be32(vaddr) + be32(vaddr) + be32(size) + be32(size) + be32(
        flags,
    ) + be32(0)
}

/// The whole image: file header, the code segment's descriptor
/// (executable and readable), the data segment's descriptor (writable and
/// readable), the code words big-endian, and the raw data bytes.
pub open spec fn pack_spec(
    code_base_addr: u32,
    code: Seq<u32>,
    data_base_addr: u32,
    data: Seq<u8>,
) -> Seq<u8> {
    file_header_bytes(code_base_addr) + load_header_bytes(
        0x74,
        code_base_addr,
        (4 * code.len()) as u32,
        0x05000000,
    ) + load_header_bytes(
        ((0x74 + 4 * code.len()) as u32),
        data_base_addr,
        data.len() as u32,
        0x06000000,
    ) + words_be(code) + data
}

/// Appends the four big-endian bytes of `v`.
fn push_be32(out: &mut Vec<u8>, v: u32)
    ensures
        final(out)@ == old(out)@ + be32(v),
{
    let mut piece = crate::data::be_bytes(v, 4);
    let ghost before = out@;
    let ghost pv = piece@;
    out.append(&mut piece);
    proof {
        assert(out@ =~= before + pv);
    }
}

/// Appends the two big-endian bytes of `v`.
fn push_be16(out: &mut Vec<u8>, v: u16)
    ensures
        final(out)@ == old(out)@ + be16(v),
{
    let mut piece = crate::data::be_bytes(v as u32, 2);
    let ghost before = out@;
    let ghost pv = piece@;
    out.append(&mut piece);
    proof {
        assert(out@ =~= before + pv);
    }
}

/// Appends a copy of `src`.
fn push_bytes(out: &mut Vec<u8>, src: &Vec<u8>)
    ensures
        final(out)@ == old(out)@ + src@,
{
    let ghost before = out@;
    let n = src.len();
    let mut i: usize = 0;
    while i < n
        invariant
            i <= n,
            n == src@.len(),
            out@ == before + src@.take(i as int),
        decreases n - i,
    {
        out.push(src[i]);
        i += 1;
        proof {
            assert(before + src@.take(i as int) =~= (before + src@.take(i as int - 1)).push(
                src@[i as int - 1],
            ));
        }
    }
    proof {
        assert(src@.take(n as int) =~= src@);
    }
}

/// Appends the serialized file header.
fn push_file_header(out: &mut Vec<u8>, h: &RelfHeader32)
    ensures
        final(out)@ == old(out)@ + relf_header_bytes(*h),
{
    push_be32(out, h.e_ident_MAG);
    out.push(h.e_ident_CLASS);
    out.push(h.e_ident_DATA);
    out.push(h.e_ident_VERSION);
    out.push(h.e_ident_OSABI);
    out.push(h.e_ident_ABIVERSION);
    push_bytes(out, &h.e_ident_EIPAD);
    push_be16(out, h.e_type);
    push_be16(out, h.e_machine);
    push_be32(out, h.e_version);
    push_be32(out, h.e_entry);
    push_be32(out, h.e_phoff);
    push_be32(out, h.e_shoff);
    push_be32(out, h.e_flags);
    push_be16(out, h.e_ehsize);
    push_be16(out, h.e_phentsize);
    push_be16(out, h.e_phnum);
    push_be16(out, h.e_shentsize);
    push_be16(out, h.e_shnum);
    push_be16(out, h.e_shstrndx);
    proof {
        assert(final(out)@ =~= old(out)@ + relf_header_bytes(*h));
    }
}

/// Appends a serialized load-segment descriptor.
fn push_section_header(out: &mut Vec<u8>, h: &SectionHeader32)
    ensures
        final(out)@ == old(out)@ + section_header_bytes(*h),
{
    push_be32(out, h.p_type);
    push_be32(out, h.p_offset);
    push_be32(out, h.p_vaddr);
    push_be32(out, h.p_paddr);
    push_be32(out, h.p_filesz);
    push_be32(out, h.p_memsz);
    push_be32(out, h.p_flags);
    push_be32(out, h.p_align);
    proof {
        assert(final(out)@ =~= old(out)@ + section_header_bytes(*h));
    }
}

/// Lays out the whole image: the file header with the entry point set to
/// the code base, the two load-segment descriptors, the code words written
/// big-endian, and the raw data bytes, tightly packed in that order.
pub fn pack(code_base_addr: u32, code: &Vec<u32>, data_base_addr: u32, data: &Vec<u8>) -> (out: Vec<
    u8,
>)
    requires
        0x74 + 4 * code@.len() <= u32::MAX,
        data@.len() <= u32::MAX,
    ensures
        out@ == pack_spec(code_base_addr, code@, data_base_addr, data@),
{
    let mut relf_header = RelfHeader32::default();
    relf_header.e_entry = code_base_addr;

    // The payloads sit directly after the file header and the two
    // descriptors: code at byte 0x74, data right after the code words.
    let code_offset: u32 = (relf_header.e_ehsize as u32) + 2 * (relf_header.e_phentsize as u32);
    let data_offset: u32 = code_offset + (code.len() as u32) * 4;

    let mut program_header = SectionHeader32::default();
    program_header.p_type = 0x00000001;
    program_header.p_offset = code_offset;
    program_header.p_vaddr = code_base_addr;
    program_header.p_paddr = code_base_addr;
    program_header.p_filesz = (code.len() as u32) * 4;
    program_header.p_memsz = (code.len() as u32) * 4;
    program_header.p_flags = 0x05000000;

    let data_header = SectionHeader32 {
        p_type: 0x00000001,
        p_offset: data_offset,
        p_vaddr: data_base_addr,
        p_paddr: data_base_addr,
        p_filesz: data.len() as u32,
        p_memsz: data.len() as u32,
        p_flags: 0x06000000,
        p_align: 0,
    };

    let mut out: Vec<u8> = Vec::new();
    push_file_header(&mut out, &relf_header);
    proof {
        assert(relf_header_bytes(relf_header) == file_header_bytes(code_base_addr));
        assert(out@ =~= file_header_bytes(code_base_addr));
    }
    push_section_header(&mut out, &program_header);
    proof {
        assert(section_header_bytes(program_header) == load_header_bytes(
            0x74,
            code_base_addr,
            (4 * code@.len()) as u32,
            0x05000000,
        ));
    }
    push_section_header(&mut out, &data_header);
    proof {
        assert(section_header_bytes(data_header) == load_header_bytes(
            ((0x74 + 4 * code@.len()) as u32),
            data_base_addr,
            data@.len() as u32,
            0x06000000,
        ));
    }
    let ghost headers = out@;

    let cn = code.len();
    let mut i: usize = 0;
    proof {
        assert(code@.skip(0) =~= code@);
    }
    while i < cn
        invariant
            i <= cn,
            cn == code@.len(),
            out@ + words_be(code@.skip(i as int)) == headers + words_be(code@),
        decreases cn - i,
    {
        let ghost before = out@;
        push_be32(&mut out, code[i]);
        proof {
            assert(code@.skip(i as int).skip(1) =~= code@.skip(i as int + 1));
            assert((before + be32(code@[i as int])) + words_be(code@.skip(i as int + 1)) =~= before
                + (be32(code@[i as int]) + words_be(code@.skip(i as int + 1))));
        }
        i += 1;
    }
    proof {
        assert(code@.skip(cn as int) =~= Seq::<u32>::empty());
        assert(out@ + Seq::<u8>::empty() =~= out@);
    }
    push_bytes(&mut out, data);
    out
}

} // verus!
