//! The chip's pins as the harness drives and reads them: bus values
//! assembled from per-node levels and split back into them, the CPU-side
//! register protocol (24 clock edges per access: the address at edge 24,
//! chip enable at 16, the sample and release at 1) and the CHR/VRAM bus
//! (the address latched on ALE's rising edge, data driven on /RD's falling
//! edge and floated on its rising edge, writes captured on /WR's rising
//! edge).

use vstd::prelude::*;

verus! {

/// Bit `i` of `x`.
pub open spec fn bit32(x: u32, i: u32) -> bool {
    (x >> i) & 1 == 1
}

/// The value of a bus whose bit i is `levels[i]`.
pub open spec fn is_bus_value(levels: Seq<bool>, r: u32) -> bool {
    forall|i: u32| i < 32 ==> #[trigger] bit32(r, i) == (i < levels.len() && levels[i as int])
}

/// No bit of zero is set.
proof fn lemma_zero_bits()
    ensures
        forall|j: u32| j < 32 ==> !#[trigger] bit32(0u32, j),
{
    assert(forall|j: u32| j < 32 ==> !#[trigger] bit32(0u32, j)) by (bit_vector);
}

/// Or-ing in `b` shifted to bit `k` sets bit `k` when `b` is one and
/// leaves every other bit as it was.
proof fn lemma_set_bit(a: u32, b: u32, k: u32)
    requires
        k < 32,
        b <= 1,
    ensures
        forall|j: u32| j < 32 ==> #[trigger] bit32(a | (b << k), j) == (bit32(a, j) || (j == k && b == 1)),
{
    assert(forall|j: u32| j < 32 ==> #[trigger] bit32(a | (b << k), j) == (bit32(a, j) || (j == k && b == 1))) by (bit_vector)
        requires
            k < 32,
            b <= 1,
    ;
}

/// A bus's value from its nodes' levels, node i being bit i.
pub fn bus_value(levels: &[bool]) -> (r: u32)
    requires
        levels@.len() <= 32,
    ensures
        is_bus_value(levels@, r),
{
    let mut acc: u32 = 0;
    let mut i: usize = 0;
    proof {
        lemma_zero_bits();
    }
    while i < levels.len()
        invariant
            i <= levels@.len() <= 32,
            forall|j: u32| j < 32 ==> #[trigger] bit32(acc, j) == (j < i && levels@[j as int]),
        decreases levels@.len() - i,
    {
        let b: u32 = if levels[i] {
            1
        } else {
            0
        };
        let k = i as u32;
        let next = acc | (b << k);
        proof {
            lemma_set_bit(acc, b, k);
        }
        acc = next;
        i = i + 1;
    }
    acc
}

/// The levels that drive `n` nodes with `val`, node i taking bit i; nodes
/// past bit 31 are driven low.
pub fn bits_of(val: u32, n: usize) -> (levels: Vec<bool>)
    ensures
        levels@.len() == n,
        forall|i: int| 0 <= i < n ==> #[trigger] levels@[i] == (i < 32 && bit32(val, i as u32)),
{
    let mut levels: Vec<bool> = Vec::new();
    let mut i: usize = 0;
    while i < n
        invariant
            i <= n,
            levels@.len() == i,
            forall|j: int| 0 <= j < i ==> #[trigger] levels@[j] == (j < 32 && bit32(val, j as u32)),
        decreases n - i,
    {
        if i < 32 {
            let k = i as u32;
            levels.push((val >> k) & 1 == 1);
        } else {
            levels.push(false);
        }
        i = i + 1;
    }
    levels
}

/// Splitting a value into levels and reading the bus back gives the
/// value's low `n` bits.
pub proof fn law_bus_round_trip(val: u32, levels: Seq<bool>, n: nat, r: u32)
    requires
        n <= 32,
        levels.len() == n,
        forall|i: int| 0 <= i < n ==> #[trigger] levels[i] == (i < 32 && bit32(val, i as u32)),
        is_bus_value(levels, r),
    ensures
        forall|i: u32| i < 32 ==> #[trigger] bit32(r, i) == (i < n && bit32(val, i)),
{
    assert forall|i: u32| i < 32 implies #[trigger] bit32(r, i) == (i < n && bit32(val, i)) by {
        if i < n {
            assert(levels[i as int] == bit32(val, i));
        }
    }
}

/// One thing the harness does to the chip's CPU-side pins.
#[derive(Clone, Copy, PartialEq, Eq, Debug, Structural)]
pub enum PinAction {
    /// Drive the register-select lines io_ab0..2 with the register number.
    DriveRegister(u8),
    /// Drive the data lines io_db0..7 with the byte.
    DriveData(u8),
    /// Let the data lines float.
    FloatData,
    /// Drive R/W: high for a read, low for a write.
    DriveRw(bool),
    /// Drive /CE: low (the chip selected) or high.
    DriveCe(bool),
    /// Sample the data lines: the byte a read returns.
    SampleData,
}

/// The pin actions for one edge of a CPU access, applied before that
/// edge's half-step; `counter` runs from 24 down to 1.
pub open spec fn access_edge_spec(rw: bool, reg: u8, val: u8, counter: u32) -> Seq<PinAction> {
    if counter == 24 {
        seq![
            PinAction::DriveRegister(reg),
            if rw {
                PinAction::FloatData
            } else {
                PinAction::DriveData(val)
            },
            PinAction::DriveRw(rw),
        ]
    } else if counter == 16 {
        seq![PinAction::DriveCe(false)]
    } else if counter == 1 {
        if rw {
            seq![PinAction::SampleData, PinAction::DriveCe(true)]
        } else {
            seq![PinAction::DriveCe(true)]
        }
    } else {
        Seq::empty()
    }
}

/// The pin actions for one edge of a CPU access.
pub fn access_edge(rw: bool, reg: u8, val: u8, counter: u32) -> (actions: Vec<PinAction>)
    ensures
        actions@ == access_edge_spec(rw, reg, val, counter),
{
    let mut actions = Vec::new();
    if counter == 24 {
        actions.push(PinAction::DriveRegister(reg));
        if rw {
            actions.push(PinAction::FloatData);
        } else {
            actions.push(PinAction::DriveData(val));
        }
        actions.push(PinAction::DriveRw(rw));
    }
    if counter == 16 {
        actions.push(PinAction::DriveCe(false));
    }
    if counter == 1 {
        if rw {
            actions.push(PinAction::SampleData);
        }
        actions.push(PinAction::DriveCe(true));
    }
    assert(actions@ =~= access_edge_spec(rw, reg, val, counter));
    actions
}

/// The edges the CHR bus reacts to in one half-step.
#[derive(Clone, Copy, PartialEq, Eq, Debug, Structural)]
pub struct ChrEdges {
    /// ALE rose: latch the address lines.
    pub latch: bool,
    /// /RD fell: drive the data lines with the byte at the latched address.
    pub drive: bool,
    /// /RD rose: let the data lines float.
    pub float: bool,
    /// /WR rose: the data lines carry a byte written to the latched address.
    pub capture: bool,
}

/// The CHR bus's memory of the previous half-step: ALE, /RD and /WR as they
/// were, and the address last latched.
#[derive(Clone, Copy, PartialEq, Eq, Debug, Structural)]
pub struct ChrBus {
    pub ale: bool,
    pub rd: bool,
    pub wr: bool,
    pub addr: u16,
}

impl ChrBus {
    /// The bus as it starts: the pins' present levels, no address latched.
    pub fn new(ale: bool, rd: bool, wr: bool) -> (b: ChrBus)
        ensures
            b == (ChrBus { ale, rd, wr, addr: 0 }),
    {
        ChrBus { ale, rd, wr, addr: 0 }
    }

    /// The edges between the remembered levels and the present ones, which
    /// are then remembered.
    pub fn edges(&mut self, ale: bool, rd: bool, wr: bool) -> (e: ChrEdges)
        ensures
            e == (ChrEdges {
                latch: !old(self).ale && ale,
                drive: old(self).rd && !rd,
                float: !old(self).rd && rd,
                capture: !old(self).wr && wr,
            }),
            *final(self) == (ChrBus { ale, rd, wr, addr: old(self).addr }),
    {
        let e = ChrEdges {
            latch: !self.ale && ale,
            drive: self.rd && !rd,
            float: !self.rd && rd,
            capture: !self.wr && wr,
        };
        self.ale = ale;
        self.rd = rd;
        self.wr = wr;
        e
    }

    /// Latch the address lines' value.
    pub fn latch(&mut self, ab: u16)
        ensures
            *final(self) == (ChrBus { addr: ab, ..*old(self) }),
    {
        self.addr = ab;
    }

    /// The address a data transfer goes to: the latched address in the
    /// PPU's 14-bit space.
    pub fn served_address(&self) -> (a: u16)
        ensures
            a == self.addr % 0x4000,
    {
        proof {
            crate::bitfacts::lemma_word_fields(self.addr);
        }
        self.addr & 0x3fff
    }
}

/// A whole CPU access: the pin actions before each of its 24 half-steps,
/// the edges counted down from 24 to 1.
pub fn access_schedule(rw: bool, reg: u8, val: u8) -> (edges: Vec<Vec<PinAction>>)
    ensures
        edges@.len() == 24,
        forall|k: int| 0 <= k < 24 ==> (#[trigger] edges@[k])@ == access_edge_spec(rw, reg, val, (24 - k) as u32),
{
    let mut edges: Vec<Vec<PinAction>> = Vec::new();
    let mut counter: u32 = 24;
    while counter >= 1
        invariant
            counter <= 24,
            edges@.len() == 24 - counter,
            forall|k: int| 0 <= k < edges@.len() ==> (#[trigger] edges@[k])@ == access_edge_spec(rw, reg, val, (24 - k) as u32),
        decreases counter,
    {
        edges.push(access_edge(rw, reg, val, counter));
        counter = counter - 1;
    }
    edges
}

} // verus!
