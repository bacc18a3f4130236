//! The execution engine: condition flags, the I/O boundary, the data bus,
//! and the CPU that interprets one decoded instruction at a time.
use vstd::prelude::*;
use crate::rasm::{as_i16, as_u16, u16_to_i16, i16_to_u16, Code};
use crate::rasm::instr::{AdrMode, Instruction, arith_mode_ok};
use crate::rasm::mem::{Memory, MemView, mem_read_spec, mem_write_spec};

verus! {

/// The four condition flags.
#[derive(Clone, Copy, Debug, PartialEq, Eq, Structural)]
pub enum FLAGS {
    /// Zero: the last relevant result was exactly 0.
    Z,
    /// Negative: the last relevant result was negative.
    N,
    /// Overflow: the last checked operation overflowed.
    V,
    /// Carry: set with V by arithmetic, and from the ejected bit by shifts.
    C,
}

/// The four-bit condition-flag register.
#[derive(Clone, Copy, Debug, PartialEq, Eq, Structural)]
pub struct Flags {
    pub z: bool,
    pub n: bool,
    pub v: bool,
    pub c: bool,
}

/// All four flags clear.
pub open spec fn flags_clear() -> Flags {
    Flags { z: false, n: false, v: false, c: false }
}

/// The flag that a [`FLAGS`] selector reads.
pub open spec fn get_flag_spec(f: Flags, which: FLAGS) -> bool {
    match which {
        FLAGS::Z => f.z,
        FLAGS::N => f.n,
        FLAGS::V => f.v,
        FLAGS::C => f.c,
    }
}

/// One flag replaced, the rest untouched.
pub open spec fn set_flag_spec(f: Flags, which: FLAGS, cond: bool) -> Flags {
    match which {
        FLAGS::Z => Flags { z: cond, ..f },
        FLAGS::N => Flags { n: cond, ..f },
        FLAGS::V => Flags { v: cond, ..f },
        FLAGS::C => Flags { c: cond, ..f },
    }
}

/// The transactional flag update after an arithmetic result: V and C are
/// set exactly when the operation overflowed, N follows the (possibly
/// wrapped) result's sign, Z its zeroness.
pub open spec fn arith_flags(value: i16, overflowed: bool) -> Flags {
    Flags { z: value == 0, n: value < 0, v: overflowed, c: overflowed }
}

impl Flags {
    pub fn new() -> (r: Flags)
        ensures
            r == flags_clear(),
    {
        Flags { z: false, n: false, v: false, c: false }
    }

    /// Replaces one flag.
    pub fn set_flag(&mut self, flag: FLAGS, cond: bool)
        ensures
            *final(self) == set_flag_spec(*old(self), flag, cond),
    {
        match flag {
            FLAGS::Z => self.z = cond,
            FLAGS::N => self.n = cond,
            FLAGS::V => self.v = cond,
            FLAGS::C => self.c = cond,
        }
    }

    /// Reads one flag.
    pub fn get_flag(&self, flag: FLAGS) -> (r: bool)
        ensures
            r == get_flag_spec(*self, flag),
    {
        match flag {
            FLAGS::Z => self.z,
            FLAGS::N => self.n,
            FLAGS::V => self.v,
            FLAGS::C => self.c,
        }
    }

    /// Applies the arithmetic flag rule to the whole register: overflow
    /// drives V and C, the (possibly wrapped) result drives N and Z.
    pub fn set_flags(&mut self, value: i16, overflowed: bool)
        ensures
            *final(self) == arith_flags(value, overflowed),
    {
        self.set_flag(FLAGS::V, overflowed);
        self.set_flag(FLAGS::C, overflowed);
        self.set_flag(FLAGS::N, value < 0);
        self.set_flag(FLAGS::Z, value == 0);
    }
}

/// The CPU's I/O boundary: bytes still to be read and bytes written so far.
/// The surrounding program supplies the input and drains the output.
pub struct IOBus {
    /// Externally supplied input bytes.
    pub input: Vec<u8>,
    /// How many input bytes were already consumed.
    pub in_pos: usize,
    /// Bytes emitted by `OUT` instructions, oldest first.
    pub output: Vec<u8>,
}

impl IOBus {
    /// The bus never consumes past the end of its input.
    pub open spec fn wf(&self) -> bool {
        self.in_pos <= self.input@.len()
    }

    /// The input bytes not yet consumed.
    pub open spec fn remaining(&self) -> Seq<u8> {
        self.input@.skip(self.in_pos as int)
    }

    pub fn new() -> (r: IOBus)
        ensures
            r.wf(),
            r.remaining() == Seq::<u8>::empty(),
            r.output@ == Seq::<u8>::empty(),
    {
        let r = IOBus { input: Vec::new(), in_pos: 0, output: Vec::new() };
        proof {
            assert(r.remaining() =~= Seq::<u8>::empty());
        }
        r
    }
}

/// Connects the CPU to its memory.
pub struct DataBus {
    pub memory: Memory,
}

impl DataBus {
    pub fn new(memory: Memory) -> (r: DataBus)
        ensures
            r.memory == memory,
    {
        DataBus { memory }
    }

    /// Reads a cell through the memory's address translation.
    pub fn read(&self, addr: usize) -> (r: i16)
        requires
            self.memory.wf(),
            addr <= 0xFFFF,
        ensures
            r == mem_read_spec(self.memory@, addr as nat),
    {
        self.memory.read(addr)
    }

    /// Writes a cell through the memory's address translation.
    pub fn write(&mut self, addr: usize, data: i16)
        requires
            old(self).memory.wf(),
            addr <= 0xFFFF,
        ensures
            final(self).memory.wf(),
            final(self).memory@ == mem_write_spec(old(self).memory@, addr as nat, data),
    {
        self.memory.write(addr, data)
    }
}

/// Addressable storage as the CPU sees it.
pub trait RAM {
    fn max_addr(&self) -> usize;

    fn min_addr(&self) -> usize;
}

/// Mathematical model of a [`CPU`] mid-run: registers, flags, memory and
/// the I/O boundary. The program itself is not part of the state an
/// instruction may change.
pub struct CpuModel {
    pub acc: i16,
    pub ix: i16,
    pub pc: u16,
    pub done: bool,
    pub flags: Flags,
    pub mem: MemView,
    /// Input bytes not yet consumed.
    pub input: Seq<u8>,
    /// Bytes emitted so far, oldest first.
    pub output: Seq<u8>,
}

/// `a + b` on 16-bit signed values, `None` on overflow.
pub open spec fn checked_add_spec(a: i16, b: i16) -> Option<i16> {
    if a + b > i16::MAX || a + b < i16::MIN {
        None
    } else {
        Some((a + b) as i16)
    }
}

/// `a - b` on 16-bit signed values, `None` on overflow.
pub open spec fn checked_sub_spec(a: i16, b: i16) -> Option<i16> {
    if a - b > i16::MAX || a - b < i16::MIN {
        None
    } else {
        Some((a - b) as i16)
    }
}

/// `a + b` wrapped into the 16-bit signed range.
pub open spec fn wrap_add_spec(a: i16, b: i16) -> i16 {
    if a + b > i16::MAX {
        (a + b - 0x10000) as i16
    } else if a + b < i16::MIN {
        (a + b + 0x10000) as i16
    } else {
        (a + b) as i16
    }
}

/// `a - b` wrapped into the 16-bit signed range.
pub open spec fn wrap_sub_spec(a: i16, b: i16) -> i16 {
    if a - b > i16::MAX {
        (a - b - 0x10000) as i16
    } else if a - b < i16::MIN {
        (a - b + 0x10000) as i16
    } else {
        (a - b) as i16
    }
}

/// The low byte of `ACC`, as emitted by an `OUT` instruction.
pub open spec fn low_byte(x: i16) -> u8 {
    (as_u16(x) % 256) as u8
}

/// An arithmetic or logical operand: the literal itself when immediate, the
/// addressed cell when direct. Indirect and indexed modes never reach these
/// instructions.
pub open spec fn operand_spec(m: CpuModel, i: u16, mode: AdrMode) -> i16 {
    match mode {
        AdrMode::Immediate => as_i16(i),
        AdrMode::Direct => mem_read_spec(m.mem, i as nat),
        _ => as_i16(i),
    }
}

/// The value a load brings into `ACC`, per addressing mode. A negative
/// intermediate address is out of every region and reads as 0.
pub open spec fn load_value_spec(m: CpuModel, data: u16, mode: AdrMode) -> i16 {
    match mode {
        AdrMode::Direct => mem_read_spec(m.mem, data as nat),
        AdrMode::Immediate => as_i16(data),
        AdrMode::Indirect => {
            let inner = mem_read_spec(m.mem, data as nat);
            if inner < 0 {
                0i16
            } else {
                mem_read_spec(m.mem, inner as nat)
            }
        },
        AdrMode::Indexed => {
            let eff = wrap_add_spec(as_i16(data), m.ix);
            if eff < 0 {
                0i16
            } else {
                mem_read_spec(m.mem, eff as nat)
            }
        },
    }
}

/// Load: `ACC` takes the resolved value, N and Z follow it.
pub open spec fn load_op(m: CpuModel, data: u16, mode: AdrMode) -> CpuModel {
    let v = load_value_spec(m, data, mode);
    CpuModel { acc: v, flags: arith_flags(v, false), ..m }
}

/// Character I/O: input consumes one supplied byte into `ACC` (N and Z
/// follow it); output emits `ACC`'s low byte.
pub open spec fn io_op(m: CpuModel, inp: bool) -> CpuModel
    recommends
        inp ==> m.input.len() > 0,
{
    if inp {
        let b = m.input[0] as i16;
        CpuModel { acc: b, flags: arith_flags(b, false), input: m.input.drop_first(), ..m }
    } else {
        CpuModel { output: m.output.push(low_byte(m.acc)), ..m }
    }
}

/// Subtract: flags from the checked difference, `ACC` takes the wrapped one.
pub open spec fn sub_op(m: CpuModel, rhs: u16, mode: AdrMode) -> CpuModel {
    let v = operand_spec(m, rhs, mode);
    CpuModel {
        acc: wrap_sub_spec(m.acc, v),
        flags: arith_flags(wrap_sub_spec(m.acc, v), checked_sub_spec(m.acc, v) is None),
        ..m
    }
}

/// Add: flags from the checked sum, `ACC` takes the wrapped one.
pub open spec fn add_op(m: CpuModel, rhs: u16, mode: AdrMode) -> CpuModel {
    let v = operand_spec(m, rhs, mode);
    CpuModel {
        acc: wrap_add_spec(m.acc, v),
        flags: arith_flags(wrap_add_spec(m.acc, v), checked_add_spec(m.acc, v) is None),
        ..m
    }
}

/// Store: `memory[addr] := ACC`, no flag update.
pub open spec fn sto_op(m: CpuModel, addr: u16) -> CpuModel {
    CpuModel { mem: mem_write_spec(m.mem, addr as nat, m.acc), ..m }
}

/// Increment or decrement by `n`: on `ACC` with the full arithmetic flag
/// rule, on `IX` with plain wrapping and no flag update.
pub open spec fn addn_op(m: CpuModel, is_acc: bool, n: i16) -> CpuModel {
    if is_acc {
        CpuModel {
            acc: wrap_add_spec(m.acc, n),
            flags: arith_flags(wrap_add_spec(m.acc, n), checked_add_spec(m.acc, n) is None),
            ..m
        }
    } else {
        CpuModel { ix: wrap_add_spec(m.ix, n), ..m }
    }
}

/// Logical shift left: carry takes the high bit of `ACC`'s pattern, then
/// the pattern shifts; no other flag moves.
pub open spec fn lsl_op(m: CpuModel, n: u16) -> CpuModel {
    let pat = as_u16(m.acc);
    let shifted: u16 = if n >= 16 {
        0u16
    } else {
        pat << n
    };
    CpuModel { acc: as_i16(shifted), flags: Flags { c: (pat & 0x8000u16) != 0u16, ..m.flags }, ..m }
}

/// Logical shift right: carry takes the low bit of `ACC`'s pattern, then
/// the pattern shifts; no other flag moves.
pub open spec fn lsr_op(m: CpuModel, n: u16) -> CpuModel {
    let pat = as_u16(m.acc);
    let shifted: u16 = if n >= 16 {
        0u16
    } else {
        pat >> n
    };
    CpuModel { acc: as_i16(shifted), flags: Flags { c: (pat & 1u16) != 0u16, ..m.flags }, ..m }
}

/// Exclusive or: `ACC` takes the combination, N and Z follow it; V and C
/// do not change.
pub open spec fn xor_op(m: CpuModel, rhs: u16, mode: AdrMode) -> CpuModel {
    let v = operand_spec(m, rhs, mode);
    let r = m.acc ^ v;
    CpuModel { acc: r, flags: (Flags { z: r == 0, n: r < 0, ..m.flags }), ..m }
}

/// Inclusive or: `ACC` takes the combination, N and Z follow it; V and C
/// do not change.
pub open spec fn or_op(m: CpuModel, rhs: u16, mode: AdrMode) -> CpuModel {
    let v = operand_spec(m, rhs, mode);
    let r = m.acc | v;
    CpuModel { acc: r, flags: (Flags { z: r == 0, n: r < 0, ..m.flags }), ..m }
}

/// Compare: exactly the subtract flag update, with `ACC` untouched.
pub open spec fn cmp_op(m: CpuModel, rhs: u16, mode: AdrMode) -> CpuModel {
    let v = operand_spec(m, rhs, mode);
    CpuModel {
        flags: arith_flags(wrap_sub_spec(m.acc, v), checked_sub_spec(m.acc, v) is None),
        ..m
    }
}

/// Conditional jump, applied to a state whose program counter already moved
/// past the instruction: on the matching zero-flag polarity the counter is
/// overwritten with the target.
pub open spec fn jmp_op(m: CpuModel, instr: Instruction) -> CpuModel {
    match instr {
        Instruction::JPE { addr, .. } => CpuModel {
            pc: if m.flags.z {
                addr
            } else {
                m.pc
            },
            ..m
        },
        Instruction::JPN { addr, .. } => CpuModel {
            pc: if m.flags.z {
                m.pc
            } else {
                addr
            },
            ..m
        },
        _ => m,
    }
}

/// Halt: no further instruction will execute.
pub open spec fn end_op(m: CpuModel) -> CpuModel {
    CpuModel { done: true, ..m }
}

/// One instruction against the machine state: the program counter moves
/// forward first, then the instruction's own effect applies (jumps
/// overwrite the already-advanced counter). An unrecognized instruction
/// changes nothing else.
pub open spec fn step_spec(m: CpuModel, instr: Instruction) -> CpuModel
    recommends
        m.pc < 0xFFFF,
        arith_mode_ok(instr),
        (instr matches Instruction::IO(inp) && inp) ==> m.input.len() > 0,
{
    let m1 = CpuModel { pc: (m.pc + 1) as u16, ..m };
    match instr {
        Instruction::IO(b) => io_op(m1, b),
        Instruction::LOAD { data, adr_mode } => load_op(m1, data, adr_mode),
        Instruction::LDR(x) => CpuModel { ix: x, ..m1 },
        Instruction::MOV => CpuModel { ix: m1.acc, ..m1 },
        Instruction::SUB { rhs, adr_mode } => sub_op(m1, rhs, adr_mode),
        Instruction::STO(addr) => sto_op(m1, addr),
        Instruction::ADD { rhs, adr_mode } => add_op(m1, rhs, adr_mode),
        Instruction::INC(b) => addn_op(m1, b, 1i16),
        Instruction::DEC(b) => addn_op(m1, b, -1i16),
        Instruction::LSL(imm) => lsl_op(m1, imm),
        Instruction::LSR(imm) => lsr_op(m1, imm),
        Instruction::XOR { rhs, adr_mode } => xor_op(m1, rhs, adr_mode),
        Instruction::OR { rhs, adr_mode } => or_op(m1, rhs, adr_mode),
        Instruction::CMP { rhs, adr_mode } => cmp_op(m1, rhs, adr_mode),
        Instruction::JPE { .. } => jmp_op(m1, instr),
        Instruction::JPN { .. } => jmp_op(m1, instr),
        Instruction::END => end_op(m1),
        Instruction::UNKNOWN => m1,
    }
}

/// Reinterpreting a 16-bit pattern as signed and back is the identity, and
/// so is the round trip the other way.
pub proof fn lemma_reinterpret_roundtrip(u: u16, x: i16)
    ensures
        as_u16(as_i16(u)) == u,
        as_i16(as_u16(x)) == x,
{
}

/// Law: adding an immediate to the accumulator is 16-bit modular addition
/// of the bit patterns — the sum taken mod 2^16 and reinterpreted as signed
/// — with V and C set exactly when the signed sum leaves the 16-bit range,
/// and N and Z following the wrapped result.
pub proof fn lemma_add_immediate_law(m: CpuModel, b: u16)
    requires
        m.pc < 0xFFFF,
    ensures
        step_spec(m, Instruction::ADD { rhs: b, adr_mode: AdrMode::Immediate }).acc as int
            == as_i16(((as_u16(m.acc) + b) % 0x10000) as u16) as int,
        step_spec(m, Instruction::ADD { rhs: b, adr_mode: AdrMode::Immediate }).flags.v <==> (
        m.acc + as_i16(b) > i16::MAX || m.acc + as_i16(b) < i16::MIN),
        step_spec(m, Instruction::ADD { rhs: b, adr_mode: AdrMode::Immediate }).flags.c <==> (
        m.acc + as_i16(b) > i16::MAX || m.acc + as_i16(b) < i16::MIN),
        step_spec(m, Instruction::ADD { rhs: b, adr_mode: AdrMode::Immediate }).flags.n <==> (
        step_spec(m, Instruction::ADD { rhs: b, adr_mode: AdrMode::Immediate }).acc < 0),
        step_spec(m, Instruction::ADD { rhs: b, adr_mode: AdrMode::Immediate }).flags.z <==> (
        step_spec(m, Instruction::ADD { rhs: b, adr_mode: AdrMode::Immediate }).acc == 0),
        step_spec(m, Instruction::ADD { rhs: b, adr_mode: AdrMode::Immediate }).ix == m.ix,
        step_spec(m, Instruction::ADD { rhs: b, adr_mode: AdrMode::Immediate }).mem == m.mem,
{
    let sum = as_u16(m.acc) + b;
    if sum < 0x10000 {
        assert(sum % 0x10000 == sum);
    } else {
        assert(sum % 0x10000 == sum - 0x10000) by (nonlinear_arith)
            requires
                0x10000 <= sum < 0x20000,
        ;
    }
}

/// Law: a compare updates only the flags; the accumulator, the index
/// register, memory and I/O are untouched, whatever the operand.
pub proof fn lemma_compare_preserves_state(m: CpuModel, b: u16, mode: AdrMode)
    requires
        m.pc < 0xFFFF,
    ensures
        step_spec(m, Instruction::CMP { rhs: b, adr_mode: mode }).acc == m.acc,
        step_spec(m, Instruction::CMP { rhs: b, adr_mode: mode }).ix == m.ix,
        step_spec(m, Instruction::CMP { rhs: b, adr_mode: mode }).mem == m.mem,
        step_spec(m, Instruction::CMP { rhs: b, adr_mode: mode }).input == m.input,
        step_spec(m, Instruction::CMP { rhs: b, adr_mode: mode }).output == m.output,
        step_spec(m, Instruction::CMP { rhs: b, adr_mode: mode }).done == m.done,
{
}

/// The CPU: `ACC`, `IX`, the program counter, the flag register, a `done`
/// latch, and its buses. Mutated only by instruction execution.
pub struct CPU {
    pub acc: i16,
    pub ix: i16,
    pub pc: u16,
    pub done: bool,
    pub flag_register: Flags,
    pub data_bus: DataBus,
    pub io_bus: IOBus,
    pub code: Code,
}

impl View for CPU {
    type V = CpuModel;

    open spec fn view(&self) -> CpuModel {
        CpuModel {
            acc: self.acc,
            ix: self.ix,
            pc: self.pc,
            done: self.done,
            flags: self.flag_register,
            mem: self.data_bus.memory@,
            input: self.io_bus.remaining(),
            output: self.io_bus.output@,
        }
    }
}

impl CPU {
    /// The machine's internal invariant: memory and I/O bus are well formed.
    pub open spec fn wf(&self) -> bool {
        &&& self.data_bus.memory.wf()
        &&& self.io_bus.wf()
    }

    /// A fresh machine over the given memory and program: registers and
    /// flags zero, not done, empty I/O.
    pub fn new(mem: Memory, code: Code) -> (r: CPU)
        requires
            mem.wf(),
        ensures
            r.wf(),
            r@ == (CpuModel {
                acc: 0i16,
                ix: 0i16,
                pc: 0u16,
                done: false,
                flags: flags_clear(),
                mem: mem@,
                input: Seq::<u8>::empty(),
                output: Seq::<u8>::empty(),
            }),
            r.code == code,
    {
        CPU {
            acc: 0,
            ix: 0,
            pc: 0,
            done: false,
            flag_register: Flags::new(),
            data_bus: DataBus::new(mem),
            io_bus: IOBus::new(),
            code,
        }
    }

    pub fn acc(&self) -> (r: i16)
        ensures
            r == self@.acc,
    {
        self.acc
    }

    pub fn ix(&self) -> (r: i16)
        ensures
            r == self@.ix,
    {
        self.ix
    }

    pub fn pc(&self) -> (r: u16)
        ensures
            r == self@.pc,
    {
        self.pc
    }

    pub fn get_flag(&self, flag: FLAGS) -> (r: bool)
        ensures
            r == get_flag_spec(self@.flags, flag),
    {
        self.flag_register.get_flag(flag)
    }

    pub fn done(&self) -> (r: bool)
        ensures
            r == self@.done,
    {
        self.done
    }

    /// Executes one decoded instruction: the program counter advances, the
    /// instruction's effect applies exactly as [`step_spec`] states, and the
    /// program itself is untouched.
    pub fn execute(&mut self, instr: &Instruction)
        requires
            old(self).wf(),
            old(self)@.pc < 0xFFFF,
            arith_mode_ok(*instr),
            (*instr matches Instruction::IO(inp) && inp) ==> old(self)@.input.len() > 0,
        ensures
            final(self).wf(),
            final(self)@ == step_spec(old(self)@, *instr),
            final(self).code == old(self).code,
    {
        self.pc = self.pc + 1;
        match *instr {
            Instruction::LOAD { data, adr_mode } => self.load(data, adr_mode),
            Instruction::LDR(x) => self.ldr(x),
            Instruction::MOV => self.ix = self.acc,
            Instruction::IO(b) => self.io(b),
            Instruction::SUB { rhs, adr_mode } => {
                proof {
                    lemma_reinterpret_roundtrip(rhs, 0i16);
                }
                self.sub(u16_to_i16(rhs), adr_mode);
            },
            Instruction::STO(addr) => self.sto(addr),
            Instruction::ADD { rhs, adr_mode } => {
                proof {
                    lemma_reinterpret_roundtrip(rhs, 0i16);
                }
                self.add(u16_to_i16(rhs), adr_mode);
            },
            Instruction::INC(b) => self.addn(b, 1),
            Instruction::DEC(b) => self.addn(b, -1),
            Instruction::LSL(imm) => self.lsl(imm),
            Instruction::LSR(imm) => self.lsr(imm),
            Instruction::XOR { rhs, adr_mode } => self.xor(rhs, adr_mode),
            Instruction::OR { rhs, adr_mode } => self.or(rhs, adr_mode),
            Instruction::CMP { rhs, adr_mode } => {
                proof {
                    lemma_reinterpret_roundtrip(rhs, 0i16);
                }
                self.cmp(u16_to_i16(rhs), adr_mode);
            },
            Instruction::END => self.end(),
            Instruction::UNKNOWN => {},
            Instruction::JPE { .. } => self.jmp(instr),
            Instruction::JPN { .. } => self.jmp(instr),
        }
    }

    /// Resolves a load operand and brings it into `ACC`.
    fn load(&mut self, data: u16, addressing_mode: AdrMode)
        requires
            old(self).wf(),
        ensures
            final(self).wf(),
            final(self)@ == load_op(old(self)@, data, addressing_mode),
            final(self).code == old(self).code,
    {
        match addressing_mode {
            AdrMode::Indirect => {
                let inner = self.data_bus.read(data as usize);
                if inner >= 0 {
                    self.acc = self.data_bus.read(inner as usize);
                } else {
                    self.acc = 0;
                }
            },
            AdrMode::Direct => {
                self.acc = self.data_bus.read(data as usize);
            },
            AdrMode::Indexed => {
                let eff = u16_to_i16(data).wrapping_add(self.ix);
                if eff >= 0 {
                    self.acc = self.data_bus.read(eff as usize);
                } else {
                    self.acc = 0;
                }
            },
            AdrMode::Immediate => {
                self.acc = u16_to_i16(data);
            },
        }
        let a = self.acc;
        self.flag_register.set_flags(a, false);
    }

    /// Shift left: carry takes the high bit first.
    fn lsl(&mut self, n: u16)
        requires
            old(self).wf(),
        ensures
            final(self).wf(),
            final(self)@ == lsl_op(old(self)@, n),
            final(self).code == old(self).code,
    {
        let pat = i16_to_u16(self.acc);
        self.flag_register.set_flag(FLAGS::C, (pat & 0x8000) != 0);
        let shifted: u16 = if n >= 16 {
            0
        } else {
            pat << n
        };
        self.acc = u16_to_i16(shifted);
    }

    /// Shift right: carry takes the low bit first.
    fn lsr(&mut self, n: u16)
        requires
            old(self).wf(),
        ensures
            final(self).wf(),
            final(self)@ == lsr_op(old(self)@, n),
            final(self).code == old(self).code,
    {
        let pat = i16_to_u16(self.acc);
        self.flag_register.set_flag(FLAGS::C, (pat & 1) != 0);
        let shifted: u16 = if n >= 16 {
            0
        } else {
            pat >> n
        };
        self.acc = u16_to_i16(shifted);
    }

    /// Loads an immediate into the index register; no flag moves.
    fn ldr(&mut self, imm: i16)
        requires
            old(self).wf(),
        ensures
            final(self).wf(),
            final(self)@ == (CpuModel { ix: imm, ..old(self)@ }),
            final(self).code == old(self).code,
    {
        self.ix = imm;
    }

    /// Combines `ACC` with the operand by exclusive or; only N and Z move.
    fn xor(&mut self, imm: u16, adr_mode: AdrMode)
        requires
            old(self).wf(),
            adr_mode == AdrMode::Direct || adr_mode == AdrMode::Immediate,
        ensures
            final(self).wf(),
            final(self)@ == xor_op(old(self)@, imm, adr_mode),
            final(self).code == old(self).code,
    {
        let imm = self.get_data(imm, adr_mode);
        let r = self.acc ^ imm;
        self.flag_register.set_flag(FLAGS::N, r < 0);
        self.flag_register.set_flag(FLAGS::Z, r == 0);
        self.acc = r;
    }

    /// Resolves a direct or immediate operand for arithmetic and logic.
    fn get_data(&self, i: u16, adr_mode: AdrMode) -> (r: i16)
        requires
            self.wf(),
            adr_mode == AdrMode::Direct || adr_mode == AdrMode::Immediate,
        ensures
            r == operand_spec(self@, i, adr_mode),
    {
        match adr_mode {
            AdrMode::Immediate => u16_to_i16(i),
            AdrMode::Direct => self.data_bus.read(i as usize),
            _ => u16_to_i16(i),
        }
    }

    /// Combines `ACC` with the operand by inclusive or; only N and Z move.
    fn or(&mut self, imm: u16, adr_mode: AdrMode)
        requires
            old(self).wf(),
            adr_mode == AdrMode::Direct || adr_mode == AdrMode::Immediate,
        ensures
            final(self).wf(),
            final(self)@ == or_op(old(self)@, imm, adr_mode),
            final(self).code == old(self).code,
    {
        let imm = self.get_data(imm, adr_mode);
        let r = self.acc | imm;
        self.flag_register.set_flag(FLAGS::N, r < 0);
        self.flag_register.set_flag(FLAGS::Z, r == 0);
        self.acc = r;
    }

    /// Character I/O: input consumes the next supplied byte into `ACC`,
    /// output emits `ACC`'s low byte.
    fn io(&mut self, inp: bool)
        requires
            old(self).wf(),
            inp ==> old(self)@.input.len() > 0,
        ensures
            final(self).wf(),
            final(self)@ == io_op(old(self)@, inp),
            final(self).code == old(self).code,
    {
        if inp {
            let n = self.io_bus.input.len();
            proof {
                assert(old(self)@.input.len() == n - self.io_bus.in_pos);
            }
            let b = self.io_bus.input[self.io_bus.in_pos];
            self.io_bus.in_pos = self.io_bus.in_pos + 1;
            self.acc = b as i16;
            let a = self.acc;
            self.flag_register.set_flags(a, false);
            proof {
                assert(self.io_bus.remaining() =~= old(self)@.input.drop_first());
            }
        } else {
            let byte: u8 = (i16_to_u16(self.acc) % 256) as u8;
            self.io_bus.output.push(byte);
        }
    }

    /// Subtract from `ACC` with the checked flag rule and wrapped result.
    fn sub(&mut self, imm: i16, adr_mode: AdrMode)
        requires
            old(self).wf(),
            adr_mode == AdrMode::Direct || adr_mode == AdrMode::Immediate,
        ensures
            final(self).wf(),
            final(self)@ == sub_op(old(self)@, as_u16(imm), adr_mode),
            final(self).code == old(self).code,
    {
        let imm = self.get_data(i16_to_u16(imm), adr_mode);
        let res = self.acc.checked_sub(imm);
        let wrapped = self.acc.wrapping_sub(imm);
        self.flag_register.set_flags(wrapped, res.is_none());
        self.acc = wrapped;
    }

    /// Stores `ACC` at the given address; no flag moves.
    fn sto(&mut self, addr: u16)
        requires
            old(self).wf(),
        ensures
            final(self).wf(),
            final(self)@ == sto_op(old(self)@, addr),
            final(self).code == old(self).code,
    {
        let v = self.acc;
        self.data_bus.write(addr as usize, v);
    }

    /// Add to `ACC` with the checked flag rule and wrapped result.
    fn add(&mut self, imm: i16, adr_mode: AdrMode)
        requires
            old(self).wf(),
            adr_mode == AdrMode::Direct || adr_mode == AdrMode::Immediate,
        ensures
            final(self).wf(),
            final(self)@ == add_op(old(self)@, as_u16(imm), adr_mode),
            final(self).code == old(self).code,
    {
        let imm = self.get_data(i16_to_u16(imm), adr_mode);
        let res = self.acc.checked_add(imm);
        let wrapped = self.acc.wrapping_add(imm);
        self.flag_register.set_flags(wrapped, res.is_none());
        self.acc = wrapped;
    }

    /// Adjusts `ACC` (with flags) or `IX` (without) by `n`.
    fn addn(&mut self, acc: bool, n: i16)
        requires
            old(self).wf(),
        ensures
            final(self).wf(),
            final(self)@ == addn_op(old(self)@, acc, n),
            final(self).code == old(self).code,
    {
        if acc {
            let res = self.acc.checked_add(n);
            let wrapped = self.acc.wrapping_add(n);
            self.flag_register.set_flags(wrapped, res.is_none());
            self.acc = wrapped;
        } else {
            self.ix = self.ix.wrapping_add(n);
        }
    }

    /// Compare: subtract flags only, `ACC` keeps its value.
    fn cmp(&mut self, imm: i16, adr_mode: AdrMode)
        requires
            old(self).wf(),
            adr_mode == AdrMode::Direct || adr_mode == AdrMode::Immediate,
        ensures
            final(self).wf(),
            final(self)@ == cmp_op(old(self)@, as_u16(imm), adr_mode),
            final(self).code == old(self).code,
    {
        let imm = self.get_data(i16_to_u16(imm), adr_mode);
        let res = self.acc.checked_sub(imm);
        let wrapped = self.acc.wrapping_sub(imm);
        self.flag_register.set_flags(wrapped, res.is_none());
    }

    /// Latches the `done` flag; no further instruction will execute.
    fn end(&mut self)
        requires
            old(self).wf(),
        ensures
            final(self).wf(),
            final(self)@ == end_op(old(self)@),
            final(self).code == old(self).code,
    {
        self.done = true;
    }

    /// Overwrites the already-advanced program counter on a conditional
    /// jump whose zero-flag polarity matches.
    fn jmp(&mut self, instr: &Instruction)
        requires
            old(self).wf(),
            *instr matches Instruction::JPE { .. } || *instr matches Instruction::JPN { .. },
        ensures
            final(self).wf(),
            final(self)@ == jmp_op(old(self)@, *instr),
            final(self).code == old(self).code,
    {
        let ni: u16 = match *instr {
            Instruction::JPE { addr, .. } => {
                if self.flag_register.get_flag(FLAGS::Z) {
                    addr
                } else {
                    self.pc
                }
            },
            Instruction::JPN { addr, .. } => {
                if self.flag_register.get_flag(FLAGS::Z) {
                    self.pc
                } else {
                    addr
                }
            },
            _ => self.pc,
        };
        self.pc = ni;
    }
}

} // verus!
