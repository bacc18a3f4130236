//! Decoded instructions: the addressing modes, the instruction variants, and
//! the mnemonic-to-variant dispatch used by the assembler.
use vstd::prelude::*;
use vstd::string::StrSliceExecFns;
use crate::rasm::{as_i16, as_u16, i16_to_u16, AsmErrorKind, SymView, SymbolTable};
use crate::rasm::{add_var_spec, observe_literal_spec, resolve_spec};
use crate::rasm::text::{
    alpha_prefix, alpha_prefix_len, digit_of, digit_of_char, ends_with, parse_i16_radix,
    parse_i16_spec, spec_trim, str_ends_with, str_eq_str, trimmed,
};

verus! {

/// How an instruction's operand is interpreted.
#[derive(Clone, Copy, Debug, PartialEq, Eq, Structural)]
pub enum AdrMode {
    /// Operand is a base address offset by the live value of `IX`.
    Indexed,
    /// Operand is a literal value.
    Immediate,
    /// Operand is a memory address.
    Direct,
    /// Operand is an address whose stored value is itself an address.
    Indirect,
}

/// One decoded instruction; immutable once produced.
#[derive(Clone, Copy, Debug, PartialEq, Eq, Structural)]
pub enum Instruction {
    /// Character I/O: `true` reads a byte into `ACC`, `false` emits one.
    IO(bool),
    /// Load a value into `ACC` per the addressing mode.
    LOAD { data: u16, adr_mode: AdrMode },
    /// Load an immediate into the index register.
    LDR(i16),
    /// `ACC` -> `IX`.
    MOV,
    SUB { rhs: u16, adr_mode: AdrMode },
    /// `memory[address] := ACC`.
    STO(u16),
    ADD { rhs: u16, adr_mode: AdrMode },
    /// Increment: `true` targets `ACC`, `false` targets `IX`.
    INC(bool),
    /// Decrement: `true` targets `ACC`, `false` targets `IX`.
    DEC(bool),
    /// Logical shift left of `ACC`'s bit pattern.
    LSL(u16),
    /// Logical shift right of `ACC`'s bit pattern.
    LSR(u16),
    XOR { rhs: u16, adr_mode: AdrMode },
    OR { rhs: u16, adr_mode: AdrMode },
    CMP { rhs: u16, adr_mode: AdrMode },
    /// Jump to `addr` when the zero flag is set.
    JPE { addr: u16, adr_mode: AdrMode },
    /// Jump to `addr` when the zero flag is clear.
    JPN { addr: u16, adr_mode: AdrMode },
    END,
    /// An unrecognized mnemonic: a no-op at execution time.
    UNKNOWN,
}

/// Arithmetic, logical and compare instructions only ever carry a `Direct`
/// or `Immediate` operand; the decoder never produces the other modes there.
pub open spec fn arith_mode_ok(i: Instruction) -> bool {
    match i {
        Instruction::SUB { adr_mode, .. } => adr_mode == AdrMode::Direct || adr_mode
            == AdrMode::Immediate,
        Instruction::ADD { adr_mode, .. } => adr_mode == AdrMode::Direct || adr_mode
            == AdrMode::Immediate,
        Instruction::XOR { adr_mode, .. } => adr_mode == AdrMode::Direct || adr_mode
            == AdrMode::Immediate,
        Instruction::OR { adr_mode, .. } => adr_mode == AdrMode::Direct || adr_mode
            == AdrMode::Immediate,
        Instruction::CMP { adr_mode, .. } => adr_mode == AdrMode::Direct || adr_mode
            == AdrMode::Immediate,
        _ => true,
    }
}

/// Dispatch of an `L`-mnemonic that is not a shift: the suffix letter picks
/// the load flavour (`D`irect, i`M`mediate, `I`ndirect, inde`X`ed, or `R`
/// for a load into the index register).
pub open spec fn load_instr_spec(opcode: Seq<char>, data: u16) -> Instruction {
    if opcode.len() == 0 {
        Instruction::UNKNOWN
    } else if opcode.last() == 'D' {
        Instruction::LOAD { data, adr_mode: AdrMode::Direct }
    } else if opcode.last() == 'M' {
        Instruction::LOAD { data, adr_mode: AdrMode::Immediate }
    } else if opcode.last() == 'R' {
        Instruction::LDR(as_i16(data))
    } else if opcode.last() == 'I' {
        Instruction::LOAD { data, adr_mode: AdrMode::Indirect }
    } else if opcode.last() == 'X' {
        Instruction::LOAD { data, adr_mode: AdrMode::Indexed }
    } else {
        Instruction::UNKNOWN
    }
}

/// Dispatch of a shift mnemonic `LS?`: third letter `R` shifts right,
/// anything else shifts left.
pub open spec fn shift_instr_spec(opcode: Seq<char>, rhs: u16) -> Instruction {
    if opcode.len() < 3 {
        Instruction::UNKNOWN
    } else if opcode[2] == 'R' {
        Instruction::LSR(rhs)
    } else {
        Instruction::LSL(rhs)
    }
}

/// Dispatch of a jump mnemonic on its third letter: `E` jumps on zero,
/// `N` on non-zero.
pub open spec fn jmp_instr_spec(opcode: Seq<char>, addr: u16, adr_mode: AdrMode) -> Instruction {
    if opcode.len() < 3 {
        Instruction::UNKNOWN
    } else if opcode[2] == 'E' {
        Instruction::JPE { addr, adr_mode }
    } else if opcode[2] == 'N' {
        Instruction::JPN { addr, adr_mode }
    } else {
        Instruction::UNKNOWN
    }
}

/// Dispatch of a mnemonic with a direct (address) operand: `STO` is always a
/// store; otherwise the first letter picks the variant, with `LS?` shifts
/// carved out of the `L` loads. Increments and decrements target `ACC`
/// exactly when the resolved operand address is 0.
pub open spec fn instr_direct_spec(opcode: Seq<char>, rhs: u16) -> Instruction {
    if opcode == "STO"@ {
        Instruction::STO(rhs)
    } else if opcode.len() == 0 {
        Instruction::UNKNOWN
    } else {
        let c = opcode[0];
        if c == 'L' {
            if opcode.len() >= 2 && opcode[1] == 'S' {
                shift_instr_spec(opcode, rhs)
            } else {
                load_instr_spec(opcode, rhs)
            }
        } else if c == 'S' {
            Instruction::SUB { rhs, adr_mode: AdrMode::Direct }
        } else if c == 'A' {
            Instruction::ADD { rhs, adr_mode: AdrMode::Direct }
        } else if c == 'I' {
            Instruction::INC(rhs == 0)
        } else if c == 'D' {
            Instruction::DEC(rhs == 0)
        } else if c == 'C' {
            Instruction::CMP { rhs, adr_mode: AdrMode::Direct }
        } else if c == 'X' {
            Instruction::XOR { rhs, adr_mode: AdrMode::Direct }
        } else if c == 'O' {
            Instruction::OR { rhs, adr_mode: AdrMode::Direct }
        } else if c == 'M' {
            Instruction::MOV
        } else if c == 'J' {
            jmp_instr_spec(opcode, rhs, AdrMode::Direct)
        } else if c == 'E' {
            Instruction::END
        } else {
            Instruction::UNKNOWN
        }
    }
}

/// Dispatch of a mnemonic with an immediate (literal) operand: `STO` is
/// always a store; `LS?` is a shift; other `L` mnemonics load; the rest of
/// the recognized first letters pick arithmetic, logic, compare or jump.
pub open spec fn instr_imm_spec(opcode: Seq<char>, rhs: u16) -> Instruction {
    if opcode == "STO"@ {
        Instruction::STO(rhs)
    } else if opcode.len() == 0 {
        Instruction::UNKNOWN
    } else {
        let c = opcode[0];
        if c == 'L' {
            if opcode.len() >= 2 && opcode[1] == 'S' {
                shift_instr_spec(opcode, rhs)
            } else {
                load_instr_spec(opcode, rhs)
            }
        } else if c == 'S' {
            Instruction::SUB { rhs, adr_mode: AdrMode::Immediate }
        } else if c == 'A' {
            Instruction::ADD { rhs, adr_mode: AdrMode::Immediate }
        } else if c == 'C' {
            Instruction::CMP { rhs, adr_mode: AdrMode::Immediate }
        } else if c == 'X' {
            Instruction::XOR { rhs, adr_mode: AdrMode::Immediate }
        } else if c == 'O' {
            Instruction::OR { rhs, adr_mode: AdrMode::Immediate }
        } else if c == 'J' {
            jmp_instr_spec(opcode, rhs, AdrMode::Immediate)
        } else {
            Instruction::UNKNOWN
        }
    }
}

/// Whatever the mnemonic and operand, dispatch only ever produces arithmetic
/// and logical instructions with a `Direct` or `Immediate` operand.
pub proof fn lemma_dispatch_arith_mode_ok(opcode: Seq<char>, rhs: u16)
    ensures
        arith_mode_ok(instr_direct_spec(opcode, rhs)),
        arith_mode_ok(instr_imm_spec(opcode, rhs)),
{
}

impl Instruction {
    /// Builds the instruction for a mnemonic whose operand resolved to a
    /// direct memory address.
    pub fn new(opcode: String, rhs: u16) -> (r: Instruction)
        ensures
            r == instr_direct_spec(opcode@, rhs),
    {
        let sto: String = "STO".to_owned();
        if opcode == sto {
            return Instruction::STO(rhs);
        }
        let s = opcode.as_str();
        let n = s.unicode_len();
        if n == 0 {
            return Instruction::UNKNOWN;
        }
        match s.get_char(0) {
            'L' => {
                if n >= 2 && s.get_char(1) == 'S' {
                    Instruction::shift_instruction(&opcode, rhs)
                } else {
                    Instruction::load_instruction(&opcode, rhs)
                }
            },
            'S' => Instruction::SUB { rhs, adr_mode: AdrMode::Direct },
            'A' => Instruction::ADD { rhs, adr_mode: AdrMode::Direct },
            'I' => Instruction::INC(rhs == 0),
            'D' => Instruction::DEC(rhs == 0),
            'C' => Instruction::CMP { rhs, adr_mode: AdrMode::Direct },
            'X' => Instruction::XOR { rhs, adr_mode: AdrMode::Direct },
            'O' => Instruction::OR { rhs, adr_mode: AdrMode::Direct },
            'M' => Instruction::MOV,
            'J' => Instruction::jmp_instruction(&opcode, rhs, AdrMode::Direct),
            'E' => Instruction::END,
            _ => Instruction::UNKNOWN,
        }
    }

    /// Builds the instruction for a mnemonic whose operand is an immediate
    /// literal.
    pub fn with_imm(opcode: String, rhs: u16) -> (r: Instruction)
        ensures
            r == instr_imm_spec(opcode@, rhs),
    {
        let sto: String = "STO".to_owned();
        if opcode == sto {
            return Instruction::STO(rhs);
        }
        let s = opcode.as_str();
        let n = s.unicode_len();
        if n == 0 {
            return Instruction::UNKNOWN;
        }
        match s.get_char(0) {
            'L' => {
                if n >= 2 && s.get_char(1) == 'S' {
                    Instruction::shift_instruction(&opcode, rhs)
                } else {
                    Instruction::load_instruction(&opcode, rhs)
                }
            },
            'S' => Instruction::SUB { rhs, adr_mode: AdrMode::Immediate },
            'A' => Instruction::ADD { rhs, adr_mode: AdrMode::Immediate },
            'C' => Instruction::CMP { rhs, adr_mode: AdrMode::Immediate },
            'X' => Instruction::XOR { rhs, adr_mode: AdrMode::Immediate },
            'O' => Instruction::OR { rhs, adr_mode: AdrMode::Immediate },
            'J' => Instruction::jmp_instruction(&opcode, rhs, AdrMode::Immediate),
            _ => Instruction::UNKNOWN,
        }
    }

    /// Picks the load flavour from the mnemonic's last letter.
    fn load_instruction(opcode: &String, data: u16) -> (r: Instruction)
        requires
            opcode@.len() > 0,
        ensures
            r == load_instr_spec(opcode@, data),
    {
        let s = opcode.as_str();
        let n = s.unicode_len();
        match s.get_char(n - 1) {
            'D' => Instruction::LOAD { data, adr_mode: AdrMode::Direct },
            'M' => Instruction::LOAD { data, adr_mode: AdrMode::Immediate },
            'R' => Instruction::LDR(crate::rasm::u16_to_i16(data)),
            'I' => Instruction::LOAD { data, adr_mode: AdrMode::Indirect },
            'X' => Instruction::LOAD { data, adr_mode: AdrMode::Indexed },
            _ => Instruction::UNKNOWN,
        }
    }

    /// Picks the shift direction from the mnemonic's third letter.
    fn shift_instruction(opcode: &String, rhs: u16) -> (r: Instruction)
        requires
            opcode@.len() > 0,
        ensures
            r == shift_instr_spec(opcode@, rhs),
    {
        let s = opcode.as_str();
        let n = s.unicode_len();
        if n < 3 {
            return Instruction::UNKNOWN;
        }
        if s.get_char(2) == 'R' {
            Instruction::LSR(rhs)
        } else {
            Instruction::LSL(rhs)
        }
    }

    /// Picks the jump polarity from the mnemonic's third letter.
    fn jmp_instruction(opcode: &String, addr: u16, adr_mode: AdrMode) -> (r: Instruction)
        requires
            opcode@.len() > 0,
        ensures
            r == jmp_instr_spec(opcode@, addr, adr_mode),
    {
        let s = opcode.as_str();
        let n = s.unicode_len();
        if n < 3 {
            return Instruction::UNKNOWN;
        }
        match s.get_char(2) {
            'E' => Instruction::JPE { addr, adr_mode },
            'N' => Instruction::JPN { addr, adr_mode },
            _ => Instruction::UNKNOWN,
        }
    }
}

/// What decoding one trimmed, comment-stripped source line does to the
/// symbol table and which instruction (or fatal diagnostic) it yields:
/// `END` and the two I/O forms short-circuit; otherwise the leading letter
/// run is the mnemonic and the rest (past one separator) the operand. A
/// bare integer operand is a direct numeric address, recorded in the
/// table's bounds and built as an immediate; a bare identifier is
/// registered as a variable and resolved; a `#` operand parses as binary
/// (`B`), hexadecimal (`&`) or decimal, and any malformed immediate is
/// fatal.
pub open spec fn decode_spec(v: SymView, line: Seq<char>) -> (SymView, Result<
    Instruction,
    AsmErrorKind,
>) {
    if line == "END"@ {
        (v, Ok(Instruction::END))
    } else if ends_with(line, "IN"@) {
        (v, Ok(Instruction::IO(true)))
    } else if ends_with(line, "OUT"@) {
        (v, Ok(Instruction::IO(false)))
    } else {
        let n = alpha_prefix_len(line);
        if n >= line.len() {
            (v, Ok(Instruction::UNKNOWN))
        } else {
            let opcode = line.subrange(0, n as int);
            let ident = spec_trim(line.subrange(n + 1 as int, line.len() as int));
            if !(ident.len() > 0 && ident[0] == '#') {
                match parse_i16_spec(ident, 10) {
                    Some(p) => (
                        observe_literal_spec(v, as_u16(p)),
                        Ok(instr_imm_spec(opcode, as_u16(p))),
                    ),
                    None => {
                        let v1 = add_var_spec(v, ident);
                        match resolve_spec(v1.table, ident) {
                            Some(a) => (v1, Ok(instr_direct_spec(opcode, a))),
                            None => (v1, Err(AsmErrorKind::UnresolvedIdentifier)),
                        }
                    },
                }
            } else {
                if ident.len() < 2 {
                    (v, Err(AsmErrorKind::BadImmediate))
                } else {
                    let c0 = ident[1];
                    let p = if c0 == 'B' {
                        parse_i16_spec(ident.subrange(2, ident.len() as int), 2)
                    } else if c0 == '&' {
                        parse_i16_spec(ident.subrange(2, ident.len() as int), 16)
                    } else if digit_of(c0, 10) >= 0 {
                        parse_i16_spec(ident.subrange(1, ident.len() as int), 10)
                    } else {
                        None
                    };
                    match p {
                        Some(imm) => (v, Ok(instr_imm_spec(opcode, as_u16(imm)))),
                        None => (v, Err(AsmErrorKind::BadImmediate)),
                    }
                }
            }
        }
    }
}

/// One decoded line grows the identifier map by at most one key, touches
/// no label count, and registers at most one new variable.
pub proof fn lemma_decode_sym_growth(v: SymView, line: Seq<char>)
    requires
        v.table.dom().finite(),
    ensures
        decode_spec(v, line).0.table.dom().finite(),
        decode_spec(v, line).0.table.dom().len() <= v.table.dom().len() + 1,
        v.table.dom().len() <= decode_spec(v, line).0.table.dom().len(),
        decode_spec(v, line).0.num_vars <= v.num_vars + 1,
        decode_spec(v, line).0.labels == v.labels,
{
    let n = alpha_prefix_len(line);
    if n < line.len() {
        let ident = spec_trim(line.subrange(n + 1 as int, line.len() as int));
        crate::rasm::lemma_add_var_dom(v, ident);
    }
}

/// Decodes one trimmed, comment-stripped source line against the symbol
/// table, exactly as [`decode_spec`] states.
pub fn str_to_instr(table: &mut SymbolTable, line: &str) -> (r: Result<Instruction, AsmErrorKind>)
    requires
        old(table).wf(),
        old(table)@.num_vars < 0x10000,
    ensures
        final(table).wf(),
        final(table)@ == decode_spec(old(table)@, line@).0,
        r == decode_spec(old(table)@, line@).1,
{
    if str_eq_str(line, "END") {
        return Ok(Instruction::END);
    }
    if str_ends_with(line, "IN") {
        return Ok(Instruction::IO(true));
    }
    if str_ends_with(line, "OUT") {
        return Ok(Instruction::IO(false));
    }
    let len = line.unicode_len();
    let n = alpha_prefix(line);
    if n >= len {
        return Ok(Instruction::UNKNOWN);
    }
    let opcode: String = line.substring_char(0, n).to_owned();
    let ident = trimmed(line.substring_char(n + 1, len));
    let ident_len = ident.unicode_len();
    let starts_hash = ident_len > 0 && ident.get_char(0) == '#';
    if !starts_hash {
        match parse_i16_radix(ident, 10) {
            Some(p) => {
                table.observe_literal(i16_to_u16(p));
                Ok(Instruction::with_imm(opcode, i16_to_u16(p)))
            },
            None => {
                table.add_var(ident.to_owned());
                match table.get(ident.to_owned()) {
                    Ok(a) => Ok(Instruction::new(opcode, a)),
                    Err(e) => Err(e),
                }
            },
        }
    } else {
        if ident_len < 2 {
            return Err(AsmErrorKind::BadImmediate);
        }
        let c0 = ident.get_char(1);
        let p: Option<i16> = if c0 == 'B' {
            parse_i16_radix(ident.substring_char(2, ident_len), 2)
        } else if c0 == '&' {
            parse_i16_radix(ident.substring_char(2, ident_len), 16)
        } else if digit_of_char(c0, 10).is_some() {
            parse_i16_radix(ident.substring_char(1, ident_len), 10)
        } else {
            return Err(AsmErrorKind::BadImmediate);
        };
        match p {
            Some(imm) => Ok(Instruction::with_imm(opcode, i16_to_u16(imm))),
            None => Err(AsmErrorKind::BadImmediate),
        }
    }
}

} // verus!
