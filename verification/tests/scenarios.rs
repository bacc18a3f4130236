//! End-to-end runs of small programs through assembly and execution.
use rasm::DisplayStyle;
use rasm::rasm::exec::{execute, step_once, ExecEnd};
use rasm::rasm::cpu::FLAGS;
use rasm::rasm::{build_code, run, AsmErrorKind};

#[test]
fn store_and_load_back() {
    // LDM #5 / STO 10 / LDD 10 / END: ACC ends at 5, address 10 holds 5.
    let source = "LDM #5\nSTO 10\nLDD 10\nEND\n";
    let (computer, end) = run(source, DisplayStyle::Denary, Vec::new(), 100).unwrap();
    assert_eq!(end, ExecEnd::Halted);
    assert!(computer.cpu.done());
    assert_eq!(computer.cpu.acc(), 5);
    assert_eq!(computer.cpu.data_bus.read(10), 5);
}

#[test]
fn backward_jump_loop_counts_to_three() {
    // ACC counts to 3; the final compare leaves the zero flag set.
    let source = "LDM #0\nloop:\nADD #1\nCMP #3\nJPN loop\nEND";
    let (computer, end) = run(source, DisplayStyle::Denary, Vec::new(), 1000).unwrap();
    assert_eq!(end, ExecEnd::Halted);
    assert_eq!(computer.cpu.acc(), 3);
    assert!(computer.cpu.get_flag(FLAGS::Z));
}

#[test]
fn loop_executes_exactly_eleven_steps() {
    // LDM, three rounds of ADD/CMP/JPN, then END: 11 instructions in all.
    let source = "LDM #0\nloop:\nADD #1\nCMP #3\nJPN loop\nEND";
    let (_, end) = run(source, DisplayStyle::Denary, Vec::new(), 11).unwrap();
    assert_eq!(end, ExecEnd::Halted);
    let (_, end) = run(source, DisplayStyle::Denary, Vec::new(), 10).unwrap();
    assert_eq!(end, ExecEnd::Paused);
}

#[test]
fn add_overflow_wraps_and_sets_flags() {
    // 32767 + 1 overflows: V and C set, ACC wraps to -32768, N set, Z clear.
    let source = "LDM #32767\nADD #1\nEND";
    let (computer, end) = run(source, DisplayStyle::Denary, Vec::new(), 10).unwrap();
    assert_eq!(end, ExecEnd::Halted);
    assert_eq!(computer.cpu.acc(), -32768);
    assert!(computer.cpu.get_flag(FLAGS::V));
    assert!(computer.cpu.get_flag(FLAGS::C));
    assert!(computer.cpu.get_flag(FLAGS::N));
    assert!(!computer.cpu.get_flag(FLAGS::Z));
}

#[test]
fn comment_line_produces_nothing() {
    // A line starting with `;` yields no label, no variable, no instruction.
    let source = "; a full-line comment\nEND";
    let code = build_code(source).unwrap();
    assert_eq!(code.code.len(), 1);
    assert_eq!(code.debug_info.len(), 1);
    assert_eq!(code.table.labels, 0);
    assert_eq!(code.table.num_vars, 0);
    assert_eq!(code.debug_info[0], (1, "END".to_string()));
}

#[test]
fn missing_end_aborts_the_run() {
    let source = "LDM #1\nADD #2";
    let (computer, end) = run(source, DisplayStyle::Denary, Vec::new(), 100).unwrap();
    assert_eq!(end, ExecEnd::MissingEnd);
    assert!(!computer.cpu.done());
    assert_eq!(computer.cpu.acc(), 3);
}

#[test]
fn debug_info_reproduces_processed_lines() {
    // Debug records hold the trimmed, comment-stripped text of every
    // statement line, under its own source line index.
    let source = "  LDM #5 ; load five\nfoo:\nSTO 10\n\nEND";
    let code = build_code(source).unwrap();
    assert_eq!(code.debug_info.len(), 3);
    assert_eq!(code.debug_info[0], (0, "LDM #5 ".to_string()));
    assert_eq!(code.debug_info[1], (2, "STO 10".to_string()));
    assert_eq!(code.debug_info[2], (4, "END".to_string()));
}

#[test]
fn character_io_reads_and_writes_bytes() {
    // IN consumes one supplied byte into ACC; OUT emits ACC's low byte.
    let source = "IN\nOUT\nEND";
    let (computer, end) = run(source, DisplayStyle::Denary, vec![65], 10).unwrap();
    assert_eq!(end, ExecEnd::Halted);
    assert_eq!(computer.cpu.acc(), 65);
    assert_eq!(computer.cpu.io_bus.output, vec![65]);
}

#[test]
fn input_instruction_without_input_stops() {
    let source = "IN\nEND";
    let (_, end) = run(source, DisplayStyle::Denary, Vec::new(), 10).unwrap();
    assert_eq!(end, ExecEnd::NeedInput);
}

#[test]
fn high_addresses_translate_into_the_upper_region() {
    // With every literal address at or past 200, addresses are translated
    // down by the smallest literal; the cells still read back correctly.
    let source = "LDM #7\nSTO 500\nLDD 500\nEND";
    let (computer, end) = run(source, DisplayStyle::Denary, Vec::new(), 10).unwrap();
    assert_eq!(end, ExecEnd::Halted);
    assert_eq!(computer.cpu.acc(), 7);
    assert_eq!(computer.cpu.data_bus.read(500), 7);
    assert_eq!(computer.cpu.data_bus.memory.min_addr(), 500);
}

#[test]
fn decrement_then_shift_left_sets_carry() {
    // DEC takes ACC to -1 (all bits set); LSL then ejects a set high bit.
    let source = "LDM #0\nDEC ACC\nLSL #1\nEND";
    let (computer, end) = run(source, DisplayStyle::Denary, Vec::new(), 10).unwrap();
    assert_eq!(end, ExecEnd::Halted);
    assert_eq!(computer.cpu.acc(), -2);
    assert!(computer.cpu.get_flag(FLAGS::C));
}

#[test]
fn bad_immediate_is_a_fatal_diagnostic() {
    let source = "LDM #5\nADD #Z9\nEND";
    let err = match run(source, DisplayStyle::Denary, Vec::new(), 10) {
        Err(e) => e,
        Ok(_) => panic!("expected a fatal diagnostic"),
    };
    assert_eq!(err.line, 1);
    assert_eq!(err.kind, AsmErrorKind::BadImmediate);
}

#[test]
fn unknown_mnemonic_is_a_harmless_no_op() {
    // An unrecognized mnemonic assembles to a no-op; the run continues.
    let source = "QQQ 5\nLDM #9\nEND";
    let (computer, end) = run(source, DisplayStyle::Denary, Vec::new(), 10).unwrap();
    assert_eq!(end, ExecEnd::Halted);
    assert_eq!(computer.cpu.acc(), 9);
}

#[test]
fn single_stepping_matches_the_program() {
    let code = build_code("LDM #2\nADD #3\nEND").unwrap();
    let (mut computer, end) = execute(code, DisplayStyle::Denary, Vec::new(), 0);
    assert_eq!(end, ExecEnd::Paused);
    assert_eq!(step_once(&mut computer), None);
    assert_eq!(computer.cpu.acc(), 2);
    assert_eq!(step_once(&mut computer), None);
    assert_eq!(computer.cpu.acc(), 5);
    assert_eq!(step_once(&mut computer), None);
    assert!(computer.cpu.done());
    assert_eq!(step_once(&mut computer), Some(ExecEnd::Halted));
}

#[test]
fn direct_operands_read_the_variable_cell() {
    // `count` is the first variable (address 0); XOR reads its cell.
    let source = "LDM #9\nSTO count\nLDM #5\nXOR count\nEND";
    let (computer, end) = run(source, DisplayStyle::Denary, Vec::new(), 10).unwrap();
    assert_eq!(end, ExecEnd::Halted);
    assert_eq!(computer.cpu.acc(), 12);
    assert_eq!(computer.cpu.data_bus.read(0), 9);
}

#[test]
fn move_and_increment_target_the_index_register() {
    let source = "LDM #4\nMOV ACC\nINC IX\nEND";
    let (computer, end) = run(source, DisplayStyle::Denary, Vec::new(), 10).unwrap();
    assert_eq!(end, ExecEnd::Halted);
    assert_eq!(computer.cpu.ix(), 5);
    assert_eq!(computer.cpu.acc(), 4);
}

#[test]
fn variables_after_labels_stay_in_the_variable_region() {
    // The variable is allocated at index 0 even though a label precedes
    // it, so it cannot collide with the translated upper region.
    let source = "start:\nLDM #7\nSTO 500\nLDM #9\nSTO count\nLDD 500\nEND";
    let (computer, end) = run(source, DisplayStyle::Denary, Vec::new(), 10).unwrap();
    assert_eq!(end, ExecEnd::Halted);
    assert_eq!(computer.cpu.acc(), 7);
    assert_eq!(computer.cpu.data_bus.read(500), 7);
    assert_eq!(computer.cpu.data_bus.read(0), 9);
}
