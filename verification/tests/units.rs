//! Unit tests of the symbol table, decoder, parser, CPU operations,
//! builder, argument handling and the control protocol.
use rasm::rasm::cpu::{CPU, FLAGS};
use rasm::rasm::exec::{parse_control, ControlCmd};
use rasm::rasm::instr::{str_to_instr, AdrMode, Instruction};
use rasm::rasm::mem::Memory;
use rasm::rasm::text::parse_i16_radix;
use rasm::rasm::computer::ComputerBuilder;
use rasm::rasm::{AsmErrorKind, Code, SymbolTable};
use rasm::{handle_args, ArgError, DisplayStyle};

#[test]
fn variables_resolve_in_registration_order() {
    let mut t = SymbolTable::new();
    t.add_var("alpha".to_string());
    t.add_var("beta".to_string());
    t.add_var("alpha".to_string());
    t.add_var("gamma".to_string());
    assert_eq!(t.get("alpha".to_string()), Ok(0));
    assert_eq!(t.get("beta".to_string()), Ok(1));
    assert_eq!(t.get("gamma".to_string()), Ok(2));
    assert_eq!(t.num_vars, 3);
}

#[test]
fn reserved_registers_always_resolve() {
    let mut t = SymbolTable::new();
    assert_eq!(t.get("ACC".to_string()), Ok(0));
    assert_eq!(t.get("IX".to_string()), Ok(1));
    t.add_var("ACC".to_string());
    t.add_var("IX".to_string());
    assert_eq!(t.num_vars, 0);
    assert_eq!(t.get("ACC".to_string()), Ok(0));
    assert_eq!(t.get("IX".to_string()), Ok(1));
}

#[test]
fn absent_identifier_is_unresolved() {
    let t = SymbolTable::new();
    assert_eq!(t.get("nowhere".to_string()), Err(AsmErrorKind::UnresolvedIdentifier));
}

#[test]
fn variable_addresses_ignore_labels() {
    // Variable addresses are first-use allocation order; a label in the
    // shared keyspace does not shift them.
    let mut t = SymbolTable::new();
    t.add_label("top".to_string(), 0);
    t.add_var("first".to_string());
    t.add_var("second".to_string());
    assert_eq!(t.get("first".to_string()), Ok(0));
    assert_eq!(t.get("second".to_string()), Ok(1));
    assert_eq!(t.num_vars, 2);
}

#[test]
fn labels_overwrite_and_count() {
    let mut t = SymbolTable::new();
    t.add_label("spot".to_string(), 3);
    t.add_label("spot".to_string(), 7);
    assert_eq!(t.labels, 2);
    assert_eq!(t.get("spot".to_string()), Ok(7));
}

#[test]
fn decoder_recognizes_the_opcode_families() {
    let mut t = SymbolTable::new();
    assert_eq!(str_to_instr(&mut t, "END"), Ok(Instruction::END));
    assert_eq!(str_to_instr(&mut t, "IN"), Ok(Instruction::IO(true)));
    assert_eq!(str_to_instr(&mut t, "OUT"), Ok(Instruction::IO(false)));
    assert_eq!(
        str_to_instr(&mut t, "LDM #5"),
        Ok(Instruction::LOAD { data: 5, adr_mode: AdrMode::Immediate })
    );
    assert_eq!(
        str_to_instr(&mut t, "LDD count"),
        Ok(Instruction::LOAD { data: 0, adr_mode: AdrMode::Direct })
    );
    assert_eq!(
        str_to_instr(&mut t, "LDI 3"),
        Ok(Instruction::LOAD { data: 3, adr_mode: AdrMode::Indirect })
    );
    assert_eq!(
        str_to_instr(&mut t, "LDX 3"),
        Ok(Instruction::LOAD { data: 3, adr_mode: AdrMode::Indexed })
    );
    assert_eq!(str_to_instr(&mut t, "LDR #2"), Ok(Instruction::LDR(2)));
    assert_eq!(str_to_instr(&mut t, "STO 10"), Ok(Instruction::STO(10)));
    assert_eq!(
        str_to_instr(&mut t, "ADD #1"),
        Ok(Instruction::ADD { rhs: 1, adr_mode: AdrMode::Immediate })
    );
    assert_eq!(
        str_to_instr(&mut t, "SUB count"),
        Ok(Instruction::SUB { rhs: 0, adr_mode: AdrMode::Direct })
    );
    assert_eq!(str_to_instr(&mut t, "LSL #3"), Ok(Instruction::LSL(3)));
    assert_eq!(str_to_instr(&mut t, "LSR #1"), Ok(Instruction::LSR(1)));
    assert_eq!(str_to_instr(&mut t, "INC ACC"), Ok(Instruction::INC(true)));
    assert_eq!(str_to_instr(&mut t, "DEC IX"), Ok(Instruction::DEC(false)));
    assert_eq!(str_to_instr(&mut t, "MOV ACC"), Ok(Instruction::MOV));
    assert_eq!(
        str_to_instr(&mut t, "CMP #3"),
        Ok(Instruction::CMP { rhs: 3, adr_mode: AdrMode::Immediate })
    );
    assert_eq!(
        str_to_instr(&mut t, "XOR #7"),
        Ok(Instruction::XOR { rhs: 7, adr_mode: AdrMode::Immediate })
    );
    assert_eq!(
        str_to_instr(&mut t, "ORR #7"),
        Ok(Instruction::OR { rhs: 7, adr_mode: AdrMode::Immediate })
    );
    // "spot" is auto-registered as the second variable, so the jump
    // target is its address.
    assert_eq!(
        str_to_instr(&mut t, "JPE spot"),
        Ok(Instruction::JPE { addr: 1, adr_mode: AdrMode::Direct })
    );
    assert_eq!(str_to_instr(&mut t, "QQQ 5"), Ok(Instruction::UNKNOWN));
}

#[test]
fn decoder_parses_the_three_immediate_bases() {
    let mut t = SymbolTable::new();
    assert_eq!(
        str_to_instr(&mut t, "LDM #B101"),
        Ok(Instruction::LOAD { data: 5, adr_mode: AdrMode::Immediate })
    );
    assert_eq!(
        str_to_instr(&mut t, "LDM #&FF"),
        Ok(Instruction::LOAD { data: 255, adr_mode: AdrMode::Immediate })
    );
    assert_eq!(
        str_to_instr(&mut t, "LDM #42"),
        Ok(Instruction::LOAD { data: 42, adr_mode: AdrMode::Immediate })
    );
    assert_eq!(str_to_instr(&mut t, "LDM #Z1"), Err(AsmErrorKind::BadImmediate));
    assert_eq!(str_to_instr(&mut t, "LDM #B102"), Err(AsmErrorKind::BadImmediate));
    assert_eq!(str_to_instr(&mut t, "LDM #99999"), Err(AsmErrorKind::BadImmediate));
    assert_eq!(str_to_instr(&mut t, "LDM #"), Err(AsmErrorKind::BadImmediate));
}

#[test]
fn sixteen_bit_parser_matches_the_numeric_range() {
    assert_eq!(parse_i16_radix("-32768", 10), Some(-32768));
    assert_eq!(parse_i16_radix("32767", 10), Some(32767));
    assert_eq!(parse_i16_radix("32768", 10), None);
    assert_eq!(parse_i16_radix("-32769", 10), None);
    assert_eq!(parse_i16_radix("+17", 10), Some(17));
    assert_eq!(parse_i16_radix("", 10), None);
    assert_eq!(parse_i16_radix("-", 10), None);
    assert_eq!(parse_i16_radix("12a", 10), None);
    assert_eq!(parse_i16_radix("ff", 16), Some(255));
    assert_eq!(parse_i16_radix("1010", 2), Some(10));
    assert_eq!(parse_i16_radix("00000000000000042", 10), Some(42));
}

fn fresh_cpu() -> CPU {
    let table = SymbolTable::new();
    let mem = Memory::new(0, DisplayStyle::Denary, 0);
    let code = Code::new(table, Vec::new(), Vec::new());
    CPU::new(mem, code)
}

#[test]
fn add_immediate_is_modular_with_overflow_flags() {
    let mut cpu = fresh_cpu();
    cpu.execute(&Instruction::LOAD { data: 30000, adr_mode: AdrMode::Immediate });
    cpu.execute(&Instruction::ADD { rhs: 10000, adr_mode: AdrMode::Immediate });
    // 30000 + 10000 = 40000 = -25536 mod 2^16.
    assert_eq!(cpu.acc(), -25536);
    assert!(cpu.get_flag(FLAGS::V));
    assert!(cpu.get_flag(FLAGS::C));
    assert!(cpu.get_flag(FLAGS::N));
    cpu.execute(&Instruction::ADD { rhs: 100, adr_mode: AdrMode::Immediate });
    assert_eq!(cpu.acc(), -25436);
    assert!(!cpu.get_flag(FLAGS::V));
    assert!(!cpu.get_flag(FLAGS::C));
}

#[test]
fn compare_touches_only_the_flags() {
    let mut cpu = fresh_cpu();
    cpu.execute(&Instruction::LOAD { data: 7, adr_mode: AdrMode::Immediate });
    cpu.execute(&Instruction::CMP { rhs: 7, adr_mode: AdrMode::Immediate });
    assert_eq!(cpu.acc(), 7);
    assert!(cpu.get_flag(FLAGS::Z));
    cpu.execute(&Instruction::CMP { rhs: 9, adr_mode: AdrMode::Immediate });
    assert_eq!(cpu.acc(), 7);
    assert!(cpu.get_flag(FLAGS::N));
    assert!(!cpu.get_flag(FLAGS::Z));
}

#[test]
fn indexed_and_indirect_loads_follow_the_index_and_the_cell() {
    let mut cpu = fresh_cpu();
    cpu.data_bus.write(4, 99);
    cpu.data_bus.write(2, 4);
    cpu.execute(&Instruction::LDR(3));
    assert_eq!(cpu.ix(), 3);
    cpu.execute(&Instruction::LOAD { data: 1, adr_mode: AdrMode::Indexed });
    assert_eq!(cpu.acc(), 99);
    cpu.execute(&Instruction::LOAD { data: 2, adr_mode: AdrMode::Indirect });
    assert_eq!(cpu.acc(), 99);
}

#[test]
fn logic_updates_value_and_nz_only() {
    let mut cpu = fresh_cpu();
    cpu.execute(&Instruction::LOAD { data: 0b1100, adr_mode: AdrMode::Immediate });
    cpu.execute(&Instruction::XOR { rhs: 0b1010, adr_mode: AdrMode::Immediate });
    assert_eq!(cpu.acc(), 0b0110);
    cpu.execute(&Instruction::OR { rhs: 0b0001, adr_mode: AdrMode::Immediate });
    assert_eq!(cpu.acc(), 0b0111);
    assert!(!cpu.get_flag(FLAGS::Z));
    assert!(!cpu.get_flag(FLAGS::N));
    cpu.execute(&Instruction::XOR { rhs: 0b0111, adr_mode: AdrMode::Immediate });
    assert_eq!(cpu.acc(), 0);
    assert!(cpu.get_flag(FLAGS::Z));
}

#[test]
fn builder_requires_every_part() {
    let cpu = fresh_cpu();
    assert!(ComputerBuilder::new().build().is_err());
    assert!(ComputerBuilder::new().display_style(DisplayStyle::Hex).build().is_err());
    let computer = ComputerBuilder::new()
        .display_style(DisplayStyle::Hex)
        .attach_cpu(cpu)
        .build()
        .unwrap();
    assert_eq!(computer.disp_style, DisplayStyle::Hex);
}

#[test]
fn argument_handling_picks_style_and_file() {
    let args = vec!["-b".to_string(), "prog.rasm".to_string()];
    let e = handle_args(&args).unwrap();
    assert_eq!(e.style, DisplayStyle::Binary);
    assert_eq!(e.file, "prog.rasm");
    let args = vec!["other.asm".to_string(), "--hex".to_string()];
    let e = handle_args(&args).unwrap();
    assert_eq!(e.style, DisplayStyle::Hex);
    assert_eq!(e.file, "other.asm");
}

#[test]
fn argument_handling_rejects_what_it_must() {
    assert_eq!(handle_args(&vec!["-h".to_string()]), Err(ArgError::Help));
    assert_eq!(handle_args(&vec!["--help".to_string()]), Err(ArgError::Help));
    assert_eq!(
        handle_args(&vec!["-z".to_string(), "a.rasm".to_string()]),
        Err(ArgError::UnknownFlag)
    );
    assert_eq!(handle_args(&vec!["notasource".to_string()]), Err(ArgError::NoFile));
    assert_eq!(handle_args(&Vec::new()), Err(ArgError::NoFile));
}

#[test]
fn control_protocol_reads_single_letters() {
    assert_eq!(parse_control(""), ControlCmd::Step);
    assert_eq!(parse_control(" \n"), ControlCmd::Step);
    assert_eq!(parse_control("q\n"), ControlCmd::Quit);
    assert_eq!(parse_control("Q"), ControlCmd::Quit);
    assert_eq!(parse_control("c\n"), ControlCmd::Continue);
    assert_eq!(parse_control("C"), ControlCmd::Continue);
    assert_eq!(parse_control("x\n"), ControlCmd::Unrecognized);
}

#[test]
fn memory_grows_on_write_and_defaults_to_zero() {
    let mut mem = Memory::new(0, DisplayStyle::Denary, 2);
    assert_eq!(mem.read(1), 0);
    assert_eq!(mem.read(300), 0);
    mem.write(300, -5);
    assert_eq!(mem.read(300), -5);
    assert_eq!(mem.read(299), 0);
    assert_eq!(mem.max_addr(), 2);
}

#[test]
fn xor_and_or_leave_overflow_flags_untouched() {
    // An overflowing add sets V and C; the logical operations update only
    // N and Z and leave V and C as they were.
    let mut cpu = fresh_cpu();
    cpu.execute(&Instruction::LOAD { data: 32767, adr_mode: AdrMode::Immediate });
    cpu.execute(&Instruction::ADD { rhs: 1, adr_mode: AdrMode::Immediate });
    assert!(cpu.get_flag(FLAGS::V));
    assert!(cpu.get_flag(FLAGS::C));
    cpu.execute(&Instruction::XOR { rhs: 0, adr_mode: AdrMode::Immediate });
    assert!(cpu.get_flag(FLAGS::V));
    assert!(cpu.get_flag(FLAGS::C));
    assert!(cpu.get_flag(FLAGS::N));
    cpu.execute(&Instruction::OR { rhs: 0, adr_mode: AdrMode::Immediate });
    assert!(cpu.get_flag(FLAGS::V));
    assert!(cpu.get_flag(FLAGS::C));
    assert_eq!(cpu.acc(), -32768);
}
