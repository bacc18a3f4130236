//! The execution driver: boots a machine from an assembled program, steps
//! it instruction by instruction, and the control protocol of the
//! interactive step loop.
use vstd::prelude::*;
use vstd::string::StrSliceExecFns;
use crate::DisplayStyle;
use crate::rasm::Code;
use crate::rasm::SymView;
use crate::rasm::computer::{Computer, ComputerBuilder};
use crate::rasm::cpu::{step_spec, CpuModel, CPU};
use crate::rasm::instr::Instruction;
use crate::rasm::mem::{Memory, MemView};
use crate::rasm::text::spec_trim;

verus! {

/// Why a run stopped.
#[derive(Clone, Copy, Debug, PartialEq, Eq, Structural)]
pub enum ExecEnd {
    /// The program executed `END`.
    Halted,
    /// The program counter ran past the end of the instruction sequence
    /// without an `END`: a fatal configuration error.
    MissingEnd,
    /// The next instruction reads input, and no input byte is left.
    NeedInput,
    /// The step allowance ran out before the program stopped.
    Paused,
}

/// What stops the machine before the next instruction would execute: the
/// `done` latch, a program counter past the program's end, or an input
/// instruction with nothing left to read.
pub open spec fn fetch_outcome(m: CpuModel, cs: Seq<Instruction>) -> Option<ExecEnd> {
    if m.done {
        Some(ExecEnd::Halted)
    } else if m.pc >= cs.len() {
        Some(ExecEnd::MissingEnd)
    } else if (cs[m.pc as int] matches Instruction::IO(inp) && inp) && m.input.len() == 0 {
        Some(ExecEnd::NeedInput)
    } else {
        None
    }
}

/// The machine state and stop reason after at most `fuel` further
/// instructions: instructions execute one [`step_spec`] at a time until the
/// machine stops or the allowance runs out.
pub open spec fn run_model(m: CpuModel, cs: Seq<Instruction>, fuel: nat) -> (CpuModel, ExecEnd)
    decreases fuel,
{
    match fetch_outcome(m, cs) {
        Some(end) => (m, end),
        None => if fuel == 0 {
            (m, ExecEnd::Paused)
        } else {
            run_model(step_spec(m, cs[m.pc as int]), cs, (fuel - 1) as nat)
        },
    }
}

/// The machine state a fresh run starts from: zeroed registers and flags,
/// an empty memory sized by the symbol table's bounds, and the supplied
/// input bytes.
pub open spec fn boot_model(sym: SymView, style: DisplayStyle, input: Seq<u8>) -> CpuModel {
    CpuModel {
        acc: 0i16,
        ix: 0i16,
        pc: 0u16,
        done: false,
        flags: crate::rasm::cpu::flags_clear(),
        mem: MemView {
            contents: Seq::<i16>::empty(),
            min_addr: sym.min_addr,
            num_vars: sym.num_vars,
            style: style,
        },
        input: input,
        output: Seq::<u8>::empty(),
    }
}

/// Executes one instruction, or reports why none can execute: the machine
/// state moves by exactly one [`step_spec`], and the program is untouched.
pub fn step_once(computer: &mut Computer) -> (r: Option<ExecEnd>)
    requires
        old(computer).cpu.wf(),
        old(computer).cpu.code.wf(),
    ensures
        final(computer).cpu.wf(),
        final(computer).cpu.code == old(computer).cpu.code,
        final(computer).disp_style == old(computer).disp_style,
        (match fetch_outcome(old(computer).cpu@, old(computer).cpu.code.code@) {
            Some(end) => r == Some(end) && final(computer).cpu@ == old(computer).cpu@,
            None => r is None && final(computer).cpu@ == step_spec(
                old(computer).cpu@,
                old(computer).cpu.code.code@[old(computer).cpu@.pc as int],
            ),
        }),
{
    match step_once_peek(computer) {
        Some(end) => Some(end),
        None => {
            let pc = computer.cpu.pc();
            let instr: Instruction = match computer.cpu.code.get(pc as usize) {
                Some(p) => *p.0,
                None => {
                    proof {
                        assert(false);
                    }
                    vstd::pervasive::unreached()
                },
            };
            computer.cpu.execute(&instr);
            None
        },
    }
}

/// Boots a machine over the assembled program and runs it for at most
/// `fuel` instructions, exactly as [`run_model`] states, returning the
/// final machine and why it stopped.
pub fn execute(code: Code, style: DisplayStyle, input: Vec<u8>, fuel: usize) -> (r: (
    Computer,
    ExecEnd,
))
    requires
        code.wf(),
        code.table@.num_vars <= 0xFFFF,
    ensures
        r.0.cpu.wf(),
        r.0.cpu.code == code,
        r.0.disp_style == style,
        (r.0.cpu@, r.1) == run_model(boot_model(code.table@, style, input@), code.code@, fuel as nat),
{
    let ghost boot = boot_model(code.table@, style, input@);
    let ghost cs = code.code@;
    let mem = Memory::new(code.table.min_addr(), style, code.table.var_count());
    let mut cpu = CPU::new(mem, code);
    cpu.io_bus.input = input;
    cpu.io_bus.in_pos = 0;
    proof {
        assert(cpu.io_bus.remaining() =~= cpu.io_bus.input@);
        assert(cpu@ == boot);
    }
    let mut computer = match ComputerBuilder::new().display_style(style).attach_cpu(cpu).build() {
        Ok(c) => c,
        Err(_) => {
            proof {
                assert(false);
            }
            vstd::pervasive::unreached()
        },
    };
    let mut fuel_left: usize = fuel;
    let mut outcome: ExecEnd = ExecEnd::Paused;
    loop
        invariant_except_break
            computer.cpu.wf(),
            computer.cpu.code.wf(),
            computer.cpu.code == code,
            computer.cpu.code.code@ == cs,
            computer.disp_style == style,
            run_model(boot, cs, fuel as nat) == run_model(computer.cpu@, cs, fuel_left as nat),
        ensures
            computer.cpu.wf(),
            computer.cpu.code == code,
            computer.cpu.code.code@ == cs,
            computer.disp_style == style,
            run_model(boot, cs, fuel as nat) == (computer.cpu@, outcome),
        decreases fuel_left,
    {
        match step_once_peek(&computer) {
            Some(end) => {
                outcome = end;
                break ;
            },
            None => {
                if fuel_left == 0 {
                    outcome = ExecEnd::Paused;
                    break ;
                }
                let pc = computer.cpu.pc();
                let instr: Instruction = match computer.cpu.code.get(pc as usize) {
                    Some(p) => *p.0,
                    None => {
                        proof {
                            assert(false);
                        }
                        vstd::pervasive::unreached()
                    },
                };
                computer.cpu.execute(&instr);
                fuel_left -= 1;
            },
        }
    }
    (computer, outcome)
}

/// Reports what would stop the machine before its next instruction, without
/// touching it.
fn step_once_peek(computer: &Computer) -> (r: Option<ExecEnd>)
    requires
        computer.cpu.wf(),
        computer.cpu.code.wf(),
    ensures
        r == fetch_outcome(computer.cpu@, computer.cpu.code.code@),
{
    if computer.cpu.done() {
        return Some(ExecEnd::Halted);
    }
    let pc = computer.cpu.pc();
    let instr: Instruction = match computer.cpu.code.get(pc as usize) {
        Some(p) => *p.0,
        None => {
            return Some(ExecEnd::MissingEnd);
        },
    };
    let blocked: bool = match instr {
        Instruction::IO(inp) => {
            let n = computer.cpu.io_bus.input.len();
            inp && computer.cpu.io_bus.in_pos >= n
        },
        _ => false,
    };
    if blocked {
        return Some(ExecEnd::NeedInput);
    }
    None
}

/// One command of the interactive step protocol.
#[derive(Clone, Copy, Debug, PartialEq, Eq, Structural)]
pub enum ControlCmd {
    /// Proceed to the next instruction.
    Step,
    /// Stop prompting for the remainder of the run.
    Continue,
    /// Terminate the run immediately.
    Quit,
    /// No state change; the prompt repeats.
    Unrecognized,
}

/// What a control line means: an empty (all-whitespace) line steps, a line
/// whose first character is `q` or `Q` quits, one whose first character is
/// `c` or `C` continues, anything else is unrecognized.
pub open spec fn control_spec(line: Seq<char>) -> ControlCmd {
    if spec_trim(line).len() == 0 {
        ControlCmd::Step
    } else if line[0] == 'q' || line[0] == 'Q' {
        ControlCmd::Quit
    } else if line[0] == 'c' || line[0] == 'C' {
        ControlCmd::Continue
    } else {
        ControlCmd::Unrecognized
    }
}

/// Classifies one line of the interactive control protocol.
pub fn parse_control(line: &str) -> (r: ControlCmd)
    ensures
        r == control_spec(line@),
{
    let t = crate::rasm::text::trimmed(line);
    if t.unicode_len() == 0 {
        return ControlCmd::Step;
    }
    proof {
        crate::rasm::text::lemma_trim_nonempty(line@);
    }
    let c = line.get_char(0);
    if c == 'q' || c == 'Q' {
        ControlCmd::Quit
    } else if c == 'c' || c == 'C' {
        ControlCmd::Continue
    } else {
        ControlCmd::Unrecognized
    }
}

} // verus!
