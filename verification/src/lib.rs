//! An assembler and emulator for a small single-accumulator teaching
//! instruction set: one accumulator `ACC`, one index register `IX`, a
//! four-bit condition-flag register, labels, variables, and a fixed opcode
//! set covering load/store, arithmetic, logic, shifts, compare, conditional
//! jumps and character I/O.
use vstd::prelude::*;
use vstd::string::StrSliceExecFns;

pub mod rasm;

use rasm::text::{ends_with, str_ends_with, str_eq_str, views_of};

verus! {

/// Numeric base in which register and memory snapshots are rendered.
/// Rendering never affects execution semantics.
#[derive(Clone, Copy, Debug, PartialEq, Eq, Structural)]
pub enum DisplayStyle {
    Denary,
    Binary,
    Hex,
}

/// The result of command-line argument handling: a source-file path and a
/// display style for snapshots.
#[derive(Debug, PartialEq, Eq)]
pub struct EnvArgs {
    pub file: String,
    pub style: DisplayStyle,
}

/// Why the command line was rejected.
#[derive(Clone, Copy, Debug, PartialEq, Eq, Structural)]
pub enum ArgError {
    /// Help was requested; the caller prints usage and exits.
    Help,
    /// A `-` argument that is none of the known flags.
    UnknownFlag,
    /// No argument named a source file.
    NoFile,
}

/// What the arguments from index `i` on decide, carrying the style and
/// file chosen so far: help and an unknown flag stop immediately; `-b` or
/// `--bin` picks binary and `-x` or `--hex` hexadecimal rendering; an
/// argument ending in `.rasm` or `.asm` is the source file (a later one
/// wins); with no file named at all the command line is rejected.
pub open spec fn handle_args_spec(
    args: Seq<Seq<char>>,
    i: int,
    style: DisplayStyle,
    file: Seq<char>,
    has_file: bool,
) -> Result<(Seq<char>, DisplayStyle), ArgError>
    decreases args.len() - i,
{
    if i < 0 || i >= args.len() {
        if has_file {
            Ok((file, style))
        } else {
            Err(ArgError::NoFile)
        }
    } else {
        let a = args[i];
        if a.len() > 0 && a[0] == '-' {
            let rest = a.drop_first();
            if rest == "h"@ || rest == "-help"@ {
                Err(ArgError::Help)
            } else if rest == "b"@ || rest == "-bin"@ {
                handle_args_spec(args, i + 1, DisplayStyle::Binary, file, has_file)
            } else if rest == "x"@ || rest == "-hex"@ {
                handle_args_spec(args, i + 1, DisplayStyle::Hex, file, has_file)
            } else {
                Err(ArgError::UnknownFlag)
            }
        } else if ends_with(a, ".rasm"@) || ends_with(a, ".asm"@) {
            handle_args_spec(args, i + 1, style, a, true)
        } else {
            handle_args_spec(args, i + 1, style, file, has_file)
        }
    }
}

/// What argument handling must return: the spec's verdict over the whole
/// argument list, starting from decimal rendering and no file.
pub open spec fn handle_args_post(args: Seq<Seq<char>>, r: Result<EnvArgs, ArgError>) -> bool {
    match handle_args_spec(args, 0, DisplayStyle::Denary, Seq::empty(), false) {
        Ok(p) => r matches Ok(e) && e.file@ == p.0 && e.style == p.1,
        Err(e) => r == Err::<EnvArgs, ArgError>(e),
    }
}

/// Handles the command-line arguments (the program name excluded), exactly
/// as [`handle_args_spec`] states.
pub fn handle_args(args: &Vec<String>) -> (r: Result<EnvArgs, ArgError>)
    ensures
        handle_args_post(views_of(args@), r),
{
    let ghost sargs = views_of(args@);
    let mut style = DisplayStyle::Denary;
    let mut file: String = String::new();
    let mut has_file: bool = false;
    let mut i: usize = 0;
    while i < args.len()
        invariant
            sargs == views_of(args@),
            i <= args@.len(),
            handle_args_spec(sargs, 0, DisplayStyle::Denary, Seq::empty(), false)
                == handle_args_spec(sargs, i as int, style, file@, has_file),
        decreases args@.len() - i,
    {
        proof {
            assert(sargs[i as int] == args@[i as int]@);
        }
        let a = &args[i];
        let a_str = a.as_str();
        let alen = a_str.unicode_len();
        if alen > 0 && a_str.get_char(0) == '-' {
            let rest = a_str.substring_char(1, alen);
            proof {
                assert(rest@ =~= a_str@.drop_first());
            }
            if str_eq_str(rest, "h") || str_eq_str(rest, "-help") {
                return Err(ArgError::Help);
            } else if str_eq_str(rest, "b") || str_eq_str(rest, "-bin") {
                style = DisplayStyle::Binary;
            } else if str_eq_str(rest, "x") || str_eq_str(rest, "-hex") {
                style = DisplayStyle::Hex;
            } else {
                return Err(ArgError::UnknownFlag);
            }
        } else if str_ends_with(a_str, ".rasm") || str_ends_with(a_str, ".asm") {
            file = a.clone();
            has_file = true;
        }
        i += 1;
    }
    if has_file {
        Ok(EnvArgs { file, style })
    } else {
        Err(ArgError::NoFile)
    }
}

} // verus!
