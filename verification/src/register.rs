//! The register file: 8 general-purpose 16-bit registers, a 16-bit program
//! counter, and a condition flag recomputed after every general-purpose
//! register write.

use vstd::prelude::*;

verus! {

/// The condition flag: exactly one of negative, zero, positive, always
/// describing the most recently written general-purpose register.
#[allow(non_camel_case_types)]
#[derive(Clone, Copy, PartialEq, Eq, Structural, Debug)]
pub enum ConditionFlag {
    POS,
    ZRO,
    NEG,
}

/// The flag that the rule of the architecture assigns to a written value:
/// zero for 0, negative when bit 15 is set, positive otherwise.
pub open spec fn flag_of(v: u16) -> ConditionFlag {
    if v == 0 {
        ConditionFlag::ZRO
    } else if v >= 0x8000 {
        ConditionFlag::NEG
    } else {
        ConditionFlag::POS
    }
}

/// The bitmask a flag is reported as: positive 1, zero 2, negative 4. The
/// branch instruction tests these three bit positions independently.
pub open spec fn flag_bits(f: ConditionFlag) -> u16 {
    match f {
        ConditionFlag::POS => 1,
        ConditionFlag::ZRO => 2,
        ConditionFlag::NEG => 4,
    }
}

/// The mathematical content of a register file: the eight general-purpose
/// registers, the program counter and the condition flag.
pub struct RegView {
    pub gprs: Seq<u16>,
    pub pc: u16,
    pub cond: ConditionFlag,
}

/// A write to general-purpose register `i`, as the architecture defines it:
/// the register takes the value and the condition flag is recomputed from it.
pub open spec fn write_reg(r: RegView, i: int, v: u16) -> RegView {
    RegView { gprs: r.gprs.update(i, v), pc: r.pc, cond: flag_of(v) }
}

pub struct Registers {
    regs: Vec<u16>,
    pc: u16,
    cond: ConditionFlag,
}

impl View for Registers {
    type V = RegView;

    closed spec fn view(&self) -> RegView {
        RegView { gprs: self.regs@, pc: self.pc, cond: self.cond }
    }
}

impl Registers {
    /// Well-formedness: the register file holds exactly eight registers.
    pub open spec fn wf(&self) -> bool {
        self@.gprs.len() == 8
    }

    /// A fresh register file: all registers and the program counter zero,
    /// condition flag zero.
    pub fn new() -> (r: Registers)
        ensures
            r.wf(),
            r@.gprs =~= seq![0u16, 0u16, 0u16, 0u16, 0u16, 0u16, 0u16, 0u16],
            r@.pc == 0,
            r@.cond == ConditionFlag::ZRO,
    {
        let mut regs: Vec<u16> = Vec::new();
        let mut i: usize = 0;
        while i < 8
            invariant
                i <= 8,
                regs@.len() == i,
                forall|j: int| 0 <= j < i ==> regs@[j] == 0,
            decreases 8 - i,
        {
            regs.push(0);
            i = i + 1;
        }
        let r = Registers { regs, pc: 0, cond: ConditionFlag::ZRO };
        proof {
            assert(r@.gprs =~= seq![0u16, 0u16, 0u16, 0u16, 0u16, 0u16, 0u16, 0u16]);
        }
        r
    }

    /// Reads general-purpose register `r`.
    pub fn get(&self, r: usize) -> (v: u16)
        requires
            self.wf(),
            r < 8,
        ensures
            v == self@.gprs[r as int],
    {
        self.regs[r]
    }

    /// Writes general-purpose register `r` and recomputes the condition flag
    /// from the written value; the program counter is untouched.
    pub fn set(&mut self, r: usize, val: u16)
        requires
            old(self).wf(),
            r < 8,
        ensures
            final(self).wf(),
            final(self)@ == write_reg(old(self)@, r as int, val),
    {
        self.regs.set(r, val);
        self.update_flags(r);
    }

    /// Recomputes the condition flag from the current value of register `r`;
    /// registers and program counter are untouched.
    pub fn update_flags(&mut self, r: usize)
        requires
            old(self).wf(),
            r < 8,
        ensures
            final(self).wf(),
            final(self)@.gprs == old(self)@.gprs,
            final(self)@.pc == old(self)@.pc,
            final(self)@.cond == flag_of(old(self)@.gprs[r as int]),
    {
        let val = self.regs[r];
        proof {
            assert((val >> 15 != 0) == (val >= 0x8000)) by (bit_vector);
        }
        self.cond = if val == 0 {
            ConditionFlag::ZRO
        } else if (val >> 15) != 0 {
            ConditionFlag::NEG
        } else {
            ConditionFlag::POS
        };
    }

    /// Reads the program counter.
    pub fn get_pc(&self) -> (v: u16)
        ensures
            v == self@.pc,
    {
        self.pc
    }

    /// Sets the program counter; registers and flag are untouched, and no
    /// flag recomputation happens (the program counter is exempt).
    pub fn set_pc(&mut self, val: u16)
        ensures
            final(self)@.gprs == old(self)@.gprs,
            final(self)@.pc == val,
            final(self)@.cond == old(self)@.cond,
    {
        self.pc = val;
    }

    /// Advances the program counter by one with 16-bit wraparound.
    pub fn increment_pc(&mut self)
        ensures
            final(self)@.gprs == old(self)@.gprs,
            final(self)@.pc == old(self)@.pc.wrapping_add(1),
            final(self)@.cond == old(self)@.cond,
    {
        self.pc = self.pc.wrapping_add(1);
    }

    /// Reports the condition flag as its bitmask: positive 1, zero 2,
    /// negative 4.
    pub fn get_cond_flag(&self) -> (v: u16)
        ensures
            v == flag_bits(self@.cond),
    {
        match self.cond {
            ConditionFlag::POS => 1,
            ConditionFlag::ZRO => 2,
            ConditionFlag::NEG => 4,
        }
    }
}

/// The flag-update protocol, read back through the reported bitmask: right
/// after a write of `v` to any register, the reported flag bits are 2 exactly
/// when `v` is zero, 4 exactly when bit 15 of `v` is set, and 1 otherwise.
pub proof fn lemma_flag_after_write(r: RegView, i: int, v: u16)
    ensures
        flag_bits(write_reg(r, i, v).cond) == 2 <==> v == 0,
        flag_bits(write_reg(r, i, v).cond) == 4 <==> (v != 0 && v >= 0x8000),
        flag_bits(write_reg(r, i, v).cond) == 1 <==> (v != 0 && v < 0x8000),
{
}

} // verus!
