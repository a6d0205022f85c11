use relf::codegen::compile;
use relf::data::parse_int_hex_or_dec;
use relf::data::to_size_N;
use relf::data::Data;
use relf::instruction::Instruction;
use relf::instruction::InstructionType;
use relf::tag_resolution::init;

#[test]
fn conversions() {
    let n: u32 = parse_int_hex_or_dec("0x0A090807").unwrap();
    let v = to_size_N::<4>(n);
    assert!(v == [0x0A, 0x09, 0x08, 0x07]);
    let n2: u32 = parse_int_hex_or_dec("0xffff").unwrap();
    let v2 = to_size_N::<2>(n2);
    assert!(v2 == [0xff, 0xff]);
    let n3: u32 = parse_int_hex_or_dec("2").unwrap();
    let v3 = to_size_N::<2>(n3);
    assert!(v3 == [0x00, 0x02])
}

#[test]
fn parsing() {
    let d: Data = Data::from("hello: .word 0xdeadbeef").unwrap();
    assert!(d.contents == [0xde, 0xad, 0xbe, 0xef]);

    let d2: Data = Data::from(
        "some_text: .asciiz \"wow, cannot believe this string is zero terminated! unbelievable what you can do with strings\"",
    )
    .unwrap();
    assert!(&d2.contents[0..=2] == "wow".as_bytes());
    assert!(d2.contents[d2.contents.len() - 1] == "\0".as_bytes()[0]);

    let d3: Data = Data::from("bss: .space 10").unwrap();
    assert!(d3.contents.len() == 10);

    let d4: Data = Data::from("num_vec: .half 1,  2,  3 ,4").unwrap();
    assert!(d4.contents == [0x00, 0x01, 0x00, 0x02, 0x00, 0x03, 0x00, 0x04]);
}

#[test]
fn conversion() {
    let mut ctx = init();
    let instr: Instruction = Instruction::from_line("addi 1,2,3", &mut ctx).unwrap();
    assert!(matches!(instr.itype, InstructionType::I));
    assert!(instr.args.rt == 1 && instr.args.rs == 2);
}

#[test]
fn compile_label_data_resolution() {
    let mut ctx = init();
    let d = String::from("some_tag: .word 1,2,3,4");
    let i = String::from("j some_tag");

    let addr_code: u32 = 0x00000000;
    let addr_data: u32 = 0x0000ff00;
    let instr = Instruction::from_line(&i, &mut ctx).unwrap();
    let data = Data::from(&d).unwrap();
    let (code, _data) = match compile(
        addr_code,
        vec![((i.clone(), 1), Some(instr))],
        addr_data,
        vec![((d.clone(), 1), Some(data))],
        &mut ctx,
    ) {
        Ok((c, v)) => (c, v),
        Err(eobj) => {
            panic!("{:?}", eobj)
        },
    };
    assert!((code[0] & !0xfc000000) << 2 == addr_data);
}

#[test]
#[should_panic]
fn label_data_non_aligned() {
    let mut ctx = init();
    let d = String::from("some_tag: .word 1,2,3,4");
    let i = String::from("j some_tag");

    let addr_code: u32 = 0x00000000;
    let addr_data: u32 = 0x0000ffdd;
    let instr = Instruction::from_line(&i, &mut ctx).unwrap();
    let data = Data::from(&d).unwrap();
    let (_code, _data) = match compile(
        addr_code,
        vec![((i.clone(), 1), Some(instr))],
        addr_data,
        vec![((d.clone(), 1), Some(data))],
        &mut ctx,
    ) {
        Ok((c, v)) => (c, v),
        Err(eobj) => {
            panic!("{:?}", eobj)
        },
    };
}
