//! The assembled machine: a CPU paired with the display style chosen for
//! its snapshots, built through a small builder.
use vstd::prelude::*;
use crate::DisplayStyle;
use super::cpu::CPU;

verus! {

/// A CPU together with the rendering style its snapshots use.
pub struct Computer {
    pub disp_style: DisplayStyle,
    pub cpu: CPU,
}

/// Collects the parts of a [`Computer`]; `build` fails while any is missing.
pub struct ComputerBuilder {
    pub disp_style: Option<DisplayStyle>,
    pub cpu: Option<CPU>,
}

impl ComputerBuilder {
    pub fn new() -> (r: ComputerBuilder)
        ensures
            r.disp_style is None,
            r.cpu is None,
    {
        ComputerBuilder { disp_style: None, cpu: None }
    }

    /// Sets the display style.
    pub fn display_style(self, style: DisplayStyle) -> (r: ComputerBuilder)
        ensures
            r.disp_style == Some(style),
            r.cpu == self.cpu,
    {
        ComputerBuilder { disp_style: Some(style), ..self }
    }

    /// Sets the CPU.
    pub fn attach_cpu(self, cpu: CPU) -> (r: ComputerBuilder)
        ensures
            r.cpu == Some(cpu),
            r.disp_style == self.disp_style,
    {
        ComputerBuilder { cpu: Some(cpu), ..self }
    }

    /// Assembles the computer; fails exactly when a part is missing, and
    /// then says so.
    pub fn build(self) -> (r: Result<Computer, &'static str>)
        ensures
            (r matches Ok(c)) <==> (self.cpu is Some && self.disp_style is Some),
            r matches Ok(c) ==> c.cpu == self.cpu.unwrap() && c.disp_style
                == self.disp_style.unwrap(),
            r matches Err(m) ==> m@ == "Parts on CPU missing"@,
    {
        match (self.cpu, self.disp_style) {
            (Some(cpu), Some(disp_style)) => Ok(Computer { cpu, disp_style }),
            _ => Err("Parts on CPU missing"),
        }
    }
}

} // verus!
