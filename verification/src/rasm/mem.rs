//! The partitioned data store: a growable array of signed 16-bit cells with
//! a low region for variables and, for programs whose literal addresses sit
//! at or above a fixed threshold, a translated upper region.
use vstd::prelude::*;
use crate::DisplayStyle;

verus! {

/// Translation only applies from this literal-address threshold upward.
pub const REGION_THRESHOLD: u16 = 200;

/// Mathematical model of a [`Memory`]: its cells and the two parameters of
/// the address translation.
pub struct MemView {
    /// The backing cells; absent cells read as 0.
    pub contents: Seq<i16>,
    /// Smallest literal address the assembled program mentioned.
    pub min_addr: u16,
    /// Size of the low variable region.
    pub num_vars: nat,
    /// The rendering style the memory was created with.
    pub style: DisplayStyle,
}

/// Where address `addr` lands in the backing store: addresses below the
/// variable region's size index directly; from `min_addr` upward, and only
/// when `min_addr` is at or above the threshold, addresses are shifted down
/// by `min_addr` and up past the variable region; anything else indexes
/// directly.
pub open spec fn translate(num_vars: nat, min_addr: u16, addr: nat) -> nat {
    if addr < num_vars {
        addr
    } else if min_addr >= REGION_THRESHOLD && addr >= min_addr {
        ((addr - min_addr) + num_vars) as nat
    } else {
        addr
    }
}

/// The value read at `addr`: the translated cell, or 0 for a cell that was
/// never written (cells default to 0).
pub open spec fn mem_read_spec(m: MemView, addr: nat) -> i16 {
    let t = translate(m.num_vars, m.min_addr, addr);
    if t < m.contents.len() {
        m.contents[t as int]
    } else {
        0i16
    }
}

/// The store after writing `val` at `addr`: the backing array grows with
/// zeroed cells on demand, then the translated cell is updated.
pub open spec fn mem_write_spec(m: MemView, addr: nat, val: i16) -> MemView {
    let t = translate(m.num_vars, m.min_addr, addr);
    let grown = if t < m.contents.len() {
        m.contents
    } else {
        m.contents + Seq::new((t + 1 - m.contents.len()) as nat, |i: int| 0i16)
    };
    MemView { contents: grown.update(t as int, val), ..m }
}

/// Addressable 16-bit signed-cell store, partitioned into a variable region
/// and a conditionally translated upper region, growing on first write past
/// its current size.
pub struct Memory {
    min_addr: u16,
    mem: Vec<i16>,
    disp_style: DisplayStyle,
    num_vars: usize,
}

impl View for Memory {
    type V = MemView;

    closed spec fn view(&self) -> MemView {
        MemView {
            contents: self.mem@,
            min_addr: self.min_addr,
            num_vars: self.num_vars as nat,
            style: self.disp_style,
        }
    }
}

impl Memory {
    /// The store's internal invariant: the variable region fits the 16-bit
    /// address space.
    pub closed spec fn wf(&self) -> bool {
        self.num_vars <= 0xFFFF
    }

    pub fn new(min_addr: u16, disp_style: DisplayStyle, num_vars: usize) -> (r: Memory)
        requires
            num_vars <= 0xFFFF,
        ensures
            r.wf(),
            r@ == (MemView {
                contents: Seq::<i16>::empty(),
                min_addr: min_addr,
                num_vars: num_vars as nat,
                style: disp_style,
            }),
    {
        let r = Memory { min_addr, mem: Vec::new(), disp_style, num_vars };
        proof {
            assert(r@.contents =~= Seq::<i16>::empty());
        }
        r
    }

    /// Smallest literal address the program mentioned.
    pub fn min_addr(&self) -> (r: u16)
        ensures
            r == self@.min_addr,
    {
        self.min_addr
    }

    /// One past the last variable-region address.
    pub fn max_addr(&self) -> (r: u16)
        requires
            self.wf(),
        ensures
            r == self@.num_vars,
    {
        self.num_vars as u16
    }

    /// The rendering style the memory was created with.
    pub fn style(&self) -> (r: DisplayStyle)
        ensures
            r == self@.style,
    {
        self.disp_style
    }

    /// The backing index that `addr` translates to.
    fn translate_idx(&self, addr: usize) -> (t: usize)
        requires
            self.wf(),
            addr <= 0xFFFF,
        ensures
            t == translate(self@.num_vars, self@.min_addr, addr as nat),
    {
        if addr < self.num_vars {
            addr
        } else if self.min_addr >= REGION_THRESHOLD && addr >= self.min_addr as usize {
            (addr - self.min_addr as usize) + self.num_vars
        } else {
            addr
        }
    }

    /// Reads the cell at `addr`; a cell never written reads as 0.
    pub fn read(&self, addr: usize) -> (r: i16)
        requires
            self.wf(),
            addr <= 0xFFFF,
        ensures
            r == mem_read_spec(self@, addr as nat),
    {
        let t = self.translate_idx(addr);
        if t < self.mem.len() {
            self.mem[t]
        } else {
            0
        }
    }

    /// Writes `val` at `addr`, growing the store with zeroed cells when the
    /// translated index lies past its current size.
    pub fn write(&mut self, addr: usize, val: i16)
        requires
            old(self).wf(),
            addr <= 0xFFFF,
        ensures
            final(self).wf(),
            final(self)@ == mem_write_spec(old(self)@, addr as nat, val),
    {
        let t = self.translate_idx(addr);
        assert(t <= 0x1FFFE);
        let ghost pre = self.mem@;
        if t >= self.mem.len() {
            let mut i: usize = self.mem.len();
            while i <= t
                invariant
                    t <= 0x1FFFE,
                    pre.len() <= self.mem@.len() == i <= t + 1,
                    self.mem@.subrange(0, pre.len() as int) =~= pre,
                    forall|j: int| pre.len() <= j < i ==> self.mem@[j] == 0i16,
                    self.num_vars == old(self).num_vars,
                    self.min_addr == old(self).min_addr,
                    self.disp_style == old(self).disp_style,
                decreases t + 1 - i,
            {
                self.mem.push(0);
                i += 1;
            }
            proof {
                assert(self.mem@ =~= pre + Seq::new((t + 1 - pre.len()) as nat, |i: int| 0i16));
            }
        }
        self.mem[t] = val;
        proof {
            assert(self@.contents =~= mem_write_spec(old(self)@, addr as nat, val).contents);
        }
    }
}

} // verus!
