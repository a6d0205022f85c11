use relf::codegen::compile;
use relf::codegen::compile_single;
use relf::codegen::pack;
use relf::data::parse_int_hex_or_dec;
use relf::data::Data;
use relf::errors::CompileError;
use relf::errors::SyntaxError;
use relf::instruction::Instruction;
use relf::preprocess::digest;
use relf::preprocess::LineTag;
use relf::relf_headers::Sections;
use relf::tag_resolution::init;
use relf::tag_resolution::log_addr;
use relf::tag_resolution::log_or_resolve;
use relf::tag_resolution::resolve;
use relf::tag_resolution::Tag;

#[test]
fn register_format_is_address_independent() {
    let mut ctx = init();
    let instr = Instruction::from_line("add 8,9,10", &mut ctx).unwrap();
    let w1 = compile_single(&instr, 0x00000000, &ctx).unwrap();
    let w2 = compile_single(&instr, 0x00400000, &ctx).unwrap();
    assert_eq!(w1, w2);
    assert_eq!(w1, 0x012A4020);
}

#[test]
fn backward_branch_offset_round_trips() {
    let mut ctx = init();
    log_addr(&mut ctx, String::from("loop"), 0x100);
    let instr = Instruction::from_line("beq 1,2,loop", &mut ctx).unwrap();
    let w = compile_single(&instr, 0x200, &ctx).unwrap();
    assert_eq!(w, 0x1022FFBF);
    // Sign-extending the 16-bit offset and adding it as a word count to
    // the next instruction's address reproduces the target.
    let off = (w & 0xffff) as i32 - 0x10000;
    assert_eq!(0x200 + 4 + 4 * off, 0x100);
}

#[test]
fn forward_branch_offset_round_trips() {
    let mut ctx = init();
    log_addr(&mut ctx, String::from("fwd"), 0x300);
    let instr = Instruction::from_line("beq 1,2,fwd", &mut ctx).unwrap();
    let w = compile_single(&instr, 0x200, &ctx).unwrap();
    let off = (w & 0xffff) as i32;
    assert_eq!(off, 0x3F);
    assert_eq!(0x200 + 4 + 4 * off, 0x300);
}

#[test]
fn segments_must_not_overlap() {
    let mut ctx = init();
    let d = String::from("x: .word 1,2,3,4");
    let i = String::from("add 1,2,3");
    let instr = Instruction::from_line(&i, &mut ctx).unwrap();
    let data = Data::from(&d).unwrap();
    let r = compile(
        0x8,
        vec![((i.clone(), 1), Some(instr))],
        0x0,
        vec![((d.clone(), 2), Some(data))],
        &mut ctx,
    );
    assert!(matches!(r, Err(CompileError::SegmentOverlap)));
}

#[test]
fn touching_segments_are_disjoint() {
    // Code [0,4) directly followed by data [4,8): the ranges share no
    // address, so assembly succeeds.
    let mut ctx = init();
    let d = String::from("x: .word 7");
    let i = String::from("add 1,2,3");
    let instr = Instruction::from_line(&i, &mut ctx).unwrap();
    let data = Data::from(&d).unwrap();
    let (code, bytes) = compile(
        0x0,
        vec![((i.clone(), 1), Some(instr))],
        0x4,
        vec![((d.clone(), 2), Some(data))],
        &mut ctx,
    )
    .unwrap();
    assert_eq!(code.len(), 1);
    assert_eq!(bytes.len(), 4);
}

#[test]
fn word_directive_needs_aligned_address() {
    let mut ctx = init();
    let d = String::from("x: .word 7");
    let data = Data::from(&d).unwrap();
    let r = compile(0x0, vec![], 0x0000FFDD, vec![((d.clone(), 1), Some(data))], &mut ctx);
    match r {
        Err(CompileError::AlignmentError(req, addr, tag)) => {
            assert_eq!(req, 4);
            assert_eq!(addr, 0x0000FFDD);
            assert_eq!(tag, String::from("x"));
        },
        _ => panic!("expected an alignment error"),
    }
}

#[test]
fn asciiz_encoding_is_repeatable() {
    let d1 = Data::from("h: .asciiz \"hello\"").unwrap();
    let d2 = Data::from("h: .asciiz \"hello\"").unwrap();
    assert_eq!(d1.contents, d2.contents);
    assert_eq!(d1.contents, b"hello\0".to_vec());
}

#[test]
fn digest_lower_cases_and_rewrites_registers() {
    let lines = digest(".TEXT 0x10\nADD $T0, $T1, $T2\nlabel:\n# note\n").unwrap();
    assert_eq!(lines.len(), 5);
    assert!(matches!(lines[0].1, LineTag::SectionStart(0x10, Sections::Code)));
    // The entry keeps the original line text; the classification holds
    // the normalized form.
    assert_eq!(lines[1].0, String::from("ADD $T0, $T1, $T2"));
    match &lines[1].1 {
        LineTag::Processed(p) => assert_eq!(p, &String::from("add 8,9,10")),
        _ => panic!("expected an instruction line"),
    }
    match &lines[2].1 {
        LineTag::Tag(t) => assert_eq!(t, &String::from("label")),
        _ => panic!("expected a label line"),
    }
    assert!(matches!(lines[3].1, LineTag::Ignore));
    assert!(matches!(lines[4].1, LineTag::Ignore));
}

#[test]
fn digest_rewrites_offset_addressing() {
    let lines = digest("lw $t0, 4($t1)").unwrap();
    match &lines[0].1 {
        LineTag::Processed(p) => assert_eq!(p, &String::from("lw 8,9,4")),
        _ => panic!("expected an instruction line"),
    }
}

#[test]
fn digest_reads_data_marker() {
    let lines = digest(".data 512").unwrap();
    assert!(matches!(lines[0].1, LineTag::SectionStart(512, Sections::Data)));
}

#[test]
fn digest_rejects_bad_section_address() {
    assert!(matches!(digest(".text 0xzz"), Err(SyntaxError::BadNumber(_))));
}

#[test]
fn register_out_of_range_is_rejected() {
    let mut ctx = init();
    let instr = Instruction::from_line("add 99,1,2", &mut ctx).unwrap();
    let r = compile_single(&instr, 0, &ctx);
    match r {
        Err(CompileError::RegisterParse(which)) => assert_eq!(which, String::from("RD")),
        _ => panic!("expected a register error"),
    }
}

#[test]
fn oversized_immediate_is_rejected() {
    let mut ctx = init();
    let instr = Instruction::from_line("addi 1,2,99999", &mut ctx).unwrap();
    assert!(matches!(compile_single(&instr, 0, &ctx), Err(CompileError::ImmSize)));
}

#[test]
fn undefined_symbol_is_reported() {
    let mut ctx = init();
    let instr = Instruction::from_line("j nowhere", &mut ctx).unwrap();
    match compile_single(&instr, 0, &ctx) {
        Err(CompileError::TagResolution(name)) => assert_eq!(name, String::from("nowhere")),
        _ => panic!("expected an unresolved symbol error"),
    }
}

#[test]
fn unknown_opcode_is_reported() {
    let mut ctx = init();
    match Instruction::from_line("frobnicate 1,2", &mut ctx) {
        Err(SyntaxError::UnknownOpcode(op)) => assert_eq!(op, String::from("frobnicate")),
        _ => panic!("expected an unknown-opcode error"),
    }
}

#[test]
fn unknown_data_type_is_reported() {
    assert!(matches!(Data::from("a: .wordy 1"), Err(SyntaxError::UnknownDataType(_))));
}

#[test]
fn unterminated_string_is_reported() {
    assert!(matches!(Data::from("a: .asciiz \"oops"), Err(SyntaxError::NoMatchingPair('"'))));
}

#[test]
fn missing_label_colon_is_reported() {
    assert!(matches!(Data::from("no colon here"), Err(SyntaxError::MalformedLine)));
}

#[test]
fn bad_numeral_is_reported() {
    assert!(matches!(parse_int_hex_or_dec("zz"), Err(SyntaxError::BadNumber(_))));
    assert!(matches!(parse_int_hex_or_dec(""), Err(SyntaxError::BadNumber(_))));
    assert_eq!(parse_int_hex_or_dec("0x10").unwrap(), 16);
    assert_eq!(parse_int_hex_or_dec("10").unwrap(), 10);
}

#[test]
fn half_value_must_fit() {
    assert!(matches!(Data::from("x: .half 65536"), Err(SyntaxError::BadNumber(_))));
    let d = Data::from("x: .half 65535").unwrap();
    assert_eq!(d.contents, vec![0xff, 0xff]);
}

#[test]
fn space_accepts_hex_count() {
    let d = Data::from("b: .space 0x10").unwrap();
    assert_eq!(d.contents.len(), 16);
    assert!(d.contents.iter().all(|b| *b == 0));
}

#[test]
fn symbol_table_reference_then_define() {
    let mut ctx = init();
    match log_or_resolve(&mut ctx, "later") {
        Tag::BuildPending(name) => assert_eq!(name, String::from("later")),
        _ => panic!("expected a pending reference"),
    }
    assert!(matches!(resolve(&ctx, String::from("later")), Err(CompileError::TagResolution(_))));
    log_addr(&mut ctx, String::from("later"), 0x44);
    assert!(matches!(log_or_resolve(&mut ctx, "later"), Tag::Resolved(0x44)));
    assert_eq!(resolve(&ctx, String::from("later")).unwrap(), 0x44);
}

#[test]
fn packed_image_layout_is_exact() {
    let code: Vec<u32> = vec![0xAABBCCDD];
    let data: Vec<u8> = vec![1, 2, 3];
    let out = pack(0x10, &code, 0x20, &data);
    let mut expected: Vec<u8> = Vec::new();
    // 52-byte file header.
    expected.extend_from_slice(&[0x7f, 0x45, 0x4c, 0x46]);
    expected.extend_from_slice(&[0x01, 0x02, 0x01, 0x00, 0x00]);
    expected.extend_from_slice(&[0; 7]);
    expected.extend_from_slice(&[0x00, 0x02, 0x00, 0x08]);
    expected.extend_from_slice(&[0x00, 0x00, 0x00, 0x01]);
    expected.extend_from_slice(&[0x00, 0x00, 0x00, 0x10]); // entry = code base
    expected.extend_from_slice(&[0x00, 0x00, 0x00, 0x34]);
    expected.extend_from_slice(&[0x00, 0x00, 0x00, 0x00]);
    expected.extend_from_slice(&[0x00, 0x00, 0x00, 0x00]);
    expected.extend_from_slice(&[0x00, 0x34, 0x00, 0x20, 0x00, 0x02]);
    expected.extend_from_slice(&[0x00, 0x00, 0x00, 0x00, 0x00, 0x00]);
    // Code segment descriptor; its payload starts right after the headers.
    expected.extend_from_slice(&[0x00, 0x00, 0x00, 0x01]);
    expected.extend_from_slice(&[0x00, 0x00, 0x00, 0x74]);
    expected.extend_from_slice(&[0x00, 0x00, 0x00, 0x10]);
    expected.extend_from_slice(&[0x00, 0x00, 0x00, 0x10]);
    expected.extend_from_slice(&[0x00, 0x00, 0x00, 0x04]);
    expected.extend_from_slice(&[0x00, 0x00, 0x00, 0x04]);
    expected.extend_from_slice(&[0x05, 0x00, 0x00, 0x00]);
    expected.extend_from_slice(&[0x00, 0x00, 0x00, 0x00]);
    // Data segment descriptor; its payload follows the one code word.
    expected.extend_from_slice(&[0x00, 0x00, 0x00, 0x01]);
    expected.extend_from_slice(&[0x00, 0x00, 0x00, 0x78]);
    expected.extend_from_slice(&[0x00, 0x00, 0x00, 0x20]);
    expected.extend_from_slice(&[0x00, 0x00, 0x00, 0x20]);
    expected.extend_from_slice(&[0x00, 0x00, 0x00, 0x03]);
    expected.extend_from_slice(&[0x00, 0x00, 0x00, 0x03]);
    expected.extend_from_slice(&[0x06, 0x00, 0x00, 0x00]);
    expected.extend_from_slice(&[0x00, 0x00, 0x00, 0x00]);
    // Payloads: code words big-endian, then raw data.
    expected.extend_from_slice(&[0xAA, 0xBB, 0xCC, 0xDD]);
    expected.extend_from_slice(&[1, 2, 3]);
    assert_eq!(out, expected);
}

#[test]
fn empty_source_is_all_ignored() {
    let lines = digest("").unwrap();
    assert_eq!(lines.len(), 1);
    assert!(matches!(lines[0].1, LineTag::Ignore));
}

#[test]
fn empty_program_compiles_to_empty_image() {
    let mut ctx = init();
    let (code, data) = compile(0, vec![], 0x100, vec![], &mut ctx).unwrap();
    assert!(code.is_empty());
    assert!(data.is_empty());
    let image = pack(0, &code, 0x100, &data);
    assert_eq!(image.len(), 52 + 32 + 32);
}

#[test]
fn immediate_must_fit_sixteen_bits() {
    let mut ctx = init();
    let instr = Instruction::from_line("addi 1,2,65535", &mut ctx).unwrap();
    let w = compile_single(&instr, 0, &ctx).unwrap();
    assert_eq!(w & 0xffff, 0xffff);
    let instr2 = Instruction::from_line("addi 1,2,65536", &mut ctx).unwrap();
    assert!(matches!(compile_single(&instr2, 0, &ctx), Err(CompileError::ImmSize)));
}

#[test]
fn jump_field_keeps_high_target_bits() {
    let mut ctx = init();
    log_addr(&mut ctx, String::from("big"), 0x0400_0000);
    let instr = Instruction::from_line("j big", &mut ctx).unwrap();
    let w = compile_single(&instr, 0, &ctx).unwrap();
    assert_eq!(w & 0x03ff_ffff, 0x0100_0000);
    assert_eq!(w, 0x0900_0000);
}

#[test]
fn empty_code_segment_never_overlaps() {
    // An empty code segment intersects nothing, even when its base lies
    // inside the data range.
    let mut ctx = init();
    let d = String::from("x: .word 7");
    let data = Data::from(&d).unwrap();
    let (code, bytes) =
        compile(0x2A, vec![], 0x28, vec![((d.clone(), 1), Some(data))], &mut ctx).unwrap();
    assert!(code.is_empty());
    assert_eq!(bytes.len(), 4);
}

#[test]
fn keyword_requires_leading_dot() {
    assert!(matches!(Data::from("t: xword 1"), Err(SyntaxError::MalformedLine)));
    assert!(Data::from("t: .word 1").is_ok());
}

#[test]
fn uppercase_data_directive_parses() {
    let mut ctx = init();
    let lines = digest(".data 0x10\nX: .WORD 2").unwrap();
    let (instr_v, data_v, code_base, data_base) = relf::layout::lay_out(&lines, &mut ctx).unwrap();
    let (code, data) = compile(code_base, instr_v, data_base, data_v, &mut ctx).unwrap();
    assert!(code.is_empty());
    assert_eq!(data, vec![0, 0, 0, 2]);
    assert_eq!(resolve(&ctx, String::from("x")).unwrap(), 0x10);
}

#[test]
fn whole_pipeline_resolves_forward_reference() {
    let source = ".text 0x0\nj some_tag\n.data 0xff00\nsome_tag: .word 1,2,3,4\n";
    let mut ctx = init();
    let lines = digest(source).unwrap();
    let (instr_v, data_v, code_base, data_base) =
        relf::layout::lay_out(&lines, &mut ctx).unwrap();
    assert_eq!(code_base, 0x0);
    assert_eq!(data_base, 0xff00);
    let (code, data) = compile(code_base, instr_v, data_base, data_v, &mut ctx).unwrap();
    assert_eq!(code.len(), 1);
    assert_eq!((code[0] & !0xfc000000) << 2, 0xff00);
    assert_eq!(
        data,
        vec![0, 0, 0, 1, 0, 0, 0, 2, 0, 0, 0, 3, 0, 0, 0, 4]
    );
}
