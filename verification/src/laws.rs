//! Properties of the assembler, stated and proved over the spec functions
//! that the executable functions' contracts use.

use vstd::prelude::*;

use crate::codegen::code_pass;
use crate::codegen::compile_single_spec;
use crate::codegen::compile_spec;
use crate::codegen::data_pass;
use crate::codegen::encode_j_spec;
use crate::codegen::jump_target_spec;
use crate::codegen::overlap_ok;
use crate::codegen::pc_rel_offset;
use crate::codegen::sub_wrap;
use crate::data::data_spec;
use crate::data::Data;
use crate::data::DType;
use crate::errors::CompileErrorSpec;
use crate::instruction::Instruction;
use crate::instruction::InstructionType;
use crate::tag_resolution::Tag;
use vstd::utf8::encode_utf8;

verus! {

/// A register-format instruction encodes to the same machine word at every
/// address: its encoding does not depend on where it stands.
pub proof fn lemma_register_encoding_address_independent(
    instr: Instruction,
    a1: u32,
    a2: u32,
    ctx: Map<Seq<char>, Option<u32>>,
)
    requires
        instr.itype is R,
    ensures
        compile_single_spec(instr, a1, ctx) == compile_single_spec(instr, a2, ctx),
{
}

/// A jump whose operand is a symbol resolves to the symbol's recorded
/// address: once the table holds `target` for the name, the encoded word's
/// target field, shifted back up, is exactly `target` — also when the
/// symbol was referenced before the label that defines it was reached.
pub proof fn lemma_jump_forward_reference_round_trip(
    instr: Instruction,
    addr: u32,
    ctx: Map<Seq<char>, Option<u32>>,
    target: u32,
)
    requires
        instr.itype is J,
        instr.args.rs < 32,
        instr.args.rd < 32,
        instr.args.rt < 32,
        instr.args.imm matches Tag::BuildPending(s) && ctx.contains_key(s@) && ctx[s@] == Some(
            target,
        ),
        target % 4 == 0,
        target < 0x0400_0000,
    ensures
        compile_single_spec(instr, addr, ctx) matches Ok(w) && ((w & 0x03ff_ffffu32) << 2)
            == target,
{
    let f = instr.func;
    let w = encode_j_spec(f, target);
    assert(jump_target_spec(instr.args.imm, ctx) == Some(target));
    assert(((((f << 26) & 0xfc00_0000u32) | ((target >> 2) & 0x03ff_ffffu32)) & 0x03ff_ffffu32)
        << 2 == target) by (bit_vector)
        requires
            target % 4 == 0 && target < 0x0400_0000u32,
    ;
}

/// A `.word` directive whose running address is not divisible by four
/// stops the data walk with an alignment error naming that address and the
/// directive's label; assembly then fails with the same error.
pub proof fn lemma_word_alignment_enforced(
    code_base_addr: u32,
    instr_v: Seq<((String, usize), Option<Instruction>)>,
    data_base_addr: u32,
    data_v: Seq<((String, usize), Option<Data>)>,
    ctx: Map<Seq<char>, Option<u32>>,
)
    requires
        data_v.len() > 0,
        data_v[0].1 matches Some(dt) && dt.dt == DType::Word,
        data_base_addr % 4 != 0,
    ensures
        compile_spec(code_base_addr, instr_v, data_base_addr, data_v, ctx)
            == Err::<(Seq<u32>, Seq<u8>, Map<Seq<char>, Option<u32>>), CompileErrorSpec>(
            CompileErrorSpec::AlignmentError(4, data_base_addr, data_v[0].1->Some_0.tagname@),
        ),
{
    assert(data_pass(data_v, data_base_addr, ctx) == Err::<
        (Seq<u8>, u32, Map<Seq<char>, Option<u32>>),
        CompileErrorSpec,
    >(CompileErrorSpec::AlignmentError(4, data_base_addr, data_v[0].1->Some_0.tagname@)));
}

/// For a backward branch — target before the instruction, both word
/// aligned, within the reach of a 16-bit offset — the encoded offset has
/// its sign bit set, and sign-extending it and adding it as a word count
/// to the address of the next instruction reproduces the target exactly.
pub proof fn lemma_branch_offset_backward(target: u32, addr: u32)
    requires
        target % 4 == 0,
        addr % 4 == 0,
        target < addr,
        addr + 4 - target <= 0x20000,
    ensures
        ({
            let off = pc_rel_offset(target, addr);
            &&& 0x8000 <= off <= 0xffff
            &&& addr + 4 + 4 * (off - 0x10000) == target
        }),
{
    let d = addr + 4 - target;
    let v1 = sub_wrap(target, addr);
    assert(v1 == 0x1_0000_0000 - (addr - target));
    let v2 = sub_wrap(v1, 4);
    assert(v2 == 0x1_0000_0000 - d);
    let off = pc_rel_offset(target, addr);
    assert(off == (v2 >> 2) & 0xffff);
    assert(v2 >> 2 == v2 / 4) by (bit_vector);
    assert((v2 / 4) & 0xffff == (v2 / 4) % 0x10000) by (bit_vector);
    assert(v2 % 4 == 0);
    assert(v2 / 4 == 0x4000_0000 - d / 4);
    assert((0x4000_0000 - d / 4) % 0x10000 == 0x10000 - d / 4) by (nonlinear_arith)
        requires
            1 <= d / 4 <= 0x8000,
    ;
}

/// For a forward branch — target at or beyond the next instruction, both
/// word aligned, within the reach of the 16-bit field — the encoded
/// offset, read unsigned and added as a word count to the address of the
/// next instruction, reproduces the target exactly.
pub proof fn lemma_branch_offset_forward(target: u32, addr: u32)
    requires
        target % 4 == 0,
        addr % 4 == 0,
        target >= addr + 4,
        target - (addr + 4) <= 4 * 0xffff,
    ensures
        ({
            let off = pc_rel_offset(target, addr);
            &&& off <= 0xffff
            &&& addr + 4 + 4 * off == target
        }),
{
    let v1 = sub_wrap(target, addr);
    assert(v1 == target - addr);
    let v2 = sub_wrap(v1, 4);
    assert(v2 == target - addr - 4);
    assert(v2 >> 2 == v2 / 4) by (bit_vector);
    assert(v2 % 4 == 0);
}

/// Backward-branch round trip at the encoder: for an immediate-format
/// instruction whose resolved target lies before it, within reach and word
/// aligned, encoding succeeds and the word's low 16 bits, sign-extended
/// and added as a word count to the next instruction's address, reproduce
/// the target.
pub proof fn lemma_backward_branch_word_round_trip(
    instr: Instruction,
    addr: u32,
    ctx: Map<Seq<char>, Option<u32>>,
    target: u32,
)
    requires
        instr.itype is I,
        instr.args.rs < 32,
        instr.args.rd < 32,
        instr.args.rt < 32,
        instr.args.imm == Tag::Resolved(target),
        target % 4 == 0,
        addr % 4 == 0,
        target < addr,
        addr + 4 - target <= 0x20000,
    ensures
        compile_single_spec(instr, addr, ctx) matches Ok(w) && ({
            let off = w & 0xffff;
            &&& 0x8000 <= off <= 0xffff
            &&& addr + 4 + 4 * (off - 0x10000) == target
        }),
{
    lemma_branch_offset_backward(target, addr);
    let off = pc_rel_offset(target, addr);
    lemma_encode_i_keeps_offset(instr.func, instr.args.rs, instr.args.rt, off);
}

/// Forward-branch round trip at the encoder: for an immediate-format
/// instruction whose resolved target lies at or beyond the next
/// instruction, within reach and word aligned, encoding succeeds and the
/// word's low 16 bits, read unsigned and added as a word count to the next
/// instruction's address, reproduce the target.
pub proof fn lemma_forward_branch_word_round_trip(
    instr: Instruction,
    addr: u32,
    ctx: Map<Seq<char>, Option<u32>>,
    target: u32,
)
    requires
        instr.itype is I,
        instr.args.rs < 32,
        instr.args.rd < 32,
        instr.args.rt < 32,
        instr.args.imm == Tag::Resolved(target),
        target % 4 == 0,
        addr % 4 == 0,
        target >= addr + 4,
        target - (addr + 4) <= 4 * 0xffff,
    ensures
        compile_single_spec(instr, addr, ctx) matches Ok(w) && ({
            let off = w & 0xffff;
            &&& off == (target - (addr + 4)) / 4
            &&& addr + 4 + 4 * off == target
        }),
{
    lemma_branch_offset_forward(target, addr);
    let off = pc_rel_offset(target, addr);
    lemma_encode_i_keeps_offset(instr.func, instr.args.rs, instr.args.rt, off);
}

/// An offset that fits the 16-bit field survives encoding: the encoded
/// immediate-format word's low 16 bits are the offset itself.
pub proof fn lemma_encode_i_keeps_offset(func: u32, rs: u32, rt: u32, imm: u32)
    requires
        imm <= 0xffff,
    ensures
        crate::codegen::encode_i_spec(func, rs, rt, imm) & 0xffff == imm,
{
    assert(((((func << 26) & 0xfc00_0000) | ((rs << 21) & 0x03e0_0000) | ((rt << 16) & 0x001f_0000)
        | (imm & 0x0000_ffff)) & 0xffff) == imm) by (bit_vector)
        requires
            imm <= 0xffff,
    ;
}

/// Whenever the two segments' address ranges share an address, assembly
/// fails with the overlap error: a run that got past both walks still
/// refuses to produce output for intersecting segments.
pub proof fn lemma_segment_overlap_rejected(
    code_base_addr: u32,
    instr_v: Seq<((String, usize), Option<Instruction>)>,
    data_base_addr: u32,
    data_v: Seq<((String, usize), Option<Data>)>,
    ctx: Map<Seq<char>, Option<u32>>,
    x: int,
)
    requires
        code_base_addr % 2 == 0,
        data_pass(data_v, data_base_addr, ctx) is Ok,
        code_pass(
            instr_v,
            code_base_addr,
            data_pass(data_v, data_base_addr, ctx)->Ok_0.2,
        ) is Ok,
        ({
            let dlen = data_pass(data_v, data_base_addr, ctx)->Ok_0.0.len();
            let clen = code_pass(
                instr_v,
                code_base_addr,
                data_pass(data_v, data_base_addr, ctx)->Ok_0.2,
            )->Ok_0.len();
            &&& code_base_addr <= x < code_base_addr + 4 * clen
            &&& data_base_addr <= x < data_base_addr + dlen
        }),
    ensures
        compile_spec(code_base_addr, instr_v, data_base_addr, data_v, ctx) == Err::<
            (Seq<u32>, Seq<u8>, Map<Seq<char>, Option<u32>>),
            CompileErrorSpec,
        >(CompileErrorSpec::SegmentOverlap),
{
    let p = data_pass(data_v, data_base_addr, ctx)->Ok_0;
    let code = code_pass(instr_v, code_base_addr, p.2)->Ok_0;
    assert(!overlap_ok(code_base_addr, code.len(), data_base_addr, p.0.len()));
}

/// Reading a data directive is a function of the line's text alone: two
/// values read from the same line hold the same label, type and bytes.
pub proof fn lemma_data_encoding_deterministic(line: Seq<char>, d1: Data, d2: Data)
    requires
        data_spec(line) matches Some(m) && d1.tagname@ == m.0 && d1.dt == m.1 && d1.contents@
            == m.2,
        data_spec(line) matches Some(m) && d2.tagname@ == m.0 && d2.dt == m.1 && d2.contents@
            == m.2,
    ensures
        d1.tagname@ == d2.tagname@,
        d1.dt == d2.dt,
        d1.contents@ == d2.contents@,
{
}

/// A `.asciiz` directive's bytes are the quoted part's encoding followed
/// by exactly one NUL byte; when the quoted part is ASCII, the bytes
/// before the NUL are exactly its characters' code points.
pub proof fn lemma_asciiz_trailing_zero(line: Seq<char>)
    requires
        data_spec(line) matches Some(m) && m.1 == DType::ZTerminatedString,
    ensures
        ({
            let m = data_spec(line)->Some_0;
            &&& m.2.len() >= 1
            &&& m.2.last() == 0u8
            &&& exists|inner: Seq<char>|
                m.2 =~= encode_utf8(inner) + seq![0u8] && (vstd::utf8::is_ascii_chars(inner)
                    ==> m.2.drop_last() =~= Seq::new(inner.len(), |i: int| inner[i] as u8))
        }),
{
    let m = data_spec(line)->Some_0;
    let p0 = line;
    // The only branch of `data_spec` that yields `ZTerminatedString` is the
    // `.asciiz` one, whose bytes are `encode_utf8(inner) + seq![0u8]`.
    let ci = crate::strutil::first_delim(line, ':', ':');
    let after = crate::strutil::trim_spec(line.subrange(ci + 1, line.len() as int));
    let si = crate::strutil::first_delim(after, ' ', ' ');
    let content = crate::strutil::trim_spec(after.subrange(si, after.len() as int));
    let inner = crate::data::delimit_spec(content)->Some_0;
    assert(m.2 == encode_utf8(inner) + seq![0u8]);
    assert(m.2.last() == 0u8);
    if vstd::utf8::is_ascii_chars(inner) {
        vstd::utf8::is_ascii_chars_encode_utf8(inner);
        assert(m.2.drop_last() =~= encode_utf8(inner));
    }
    assert(m.2 =~= encode_utf8(inner) + seq![0u8]);
}

} // verus!
