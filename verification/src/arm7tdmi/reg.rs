//! Register banks for the ARM7TDMI programmer's model.
use vstd::prelude::*;
use crate::arm7tdmi::psr::Mode;

verus! {

pub const SP: u8 = 13;

pub const LR: u8 = 14;

pub const PC: u8 = 15;

/// The physical register that logical register `reg` names in `mode`.
///
/// Slots 0-15 are the shared bank, 16-22 FIQ's R8-R14, then R13-R14 of
/// Supervisor (23-24), Abort (25-26), IRQ (27-28) and Undefined (29-30).
pub open spec fn reg_slot(mode: Mode, reg: u8) -> int {
    if reg < 8 || reg == 15 {
        reg as int
    } else if reg <= 12 {
        if mode is Fiq {
            16 + (reg - 8)
        } else {
            reg as int
        }
    } else {
        match mode {
            Mode::Fiq => 16 + (reg - 8),
            Mode::Supervisor => 23 + (reg - 13),
            Mode::Abort => 25 + (reg - 13),
            Mode::Irq => 27 + (reg - 13),
            Mode::Undefined => 29 + (reg - 13),
            Mode::User | Mode::System => reg as int,
        }
    }
}

/// Number of physical registers.
pub open spec fn phys_count() -> int {
    31
}

/// Every logical register names one of the physical registers.
pub proof fn lemma_reg_slot_in_range(mode: Mode, reg: u8)
    requires
        reg < 16,
    ensures
        0 <= reg_slot(mode, reg) < phys_count(),
{
}

/// Within one mode, different logical registers are different physical
/// registers.
pub proof fn lemma_reg_slot_distinct(mode: Mode, a: u8, b: u8)
    requires
        a < 16,
        b < 16,
        a != b,
    ensures
        reg_slot(mode, a) != reg_slot(mode, b),
{
}

/// Physical register banks.
///
/// The current mode decides which physical register is visible for logical
/// register numbers R8-R14.
#[derive(Debug, Clone, PartialEq, Eq)]
pub struct Registers {
    common: [u32; 16],
    fiq: [u32; 7],
    svc: [u32; 2],
    abt: [u32; 2],
    irq: [u32; 2],
    und: [u32; 2],
}

impl Registers {
    closed spec fn phys(self, i: int) -> u32 {
        if i < 16 {
            self.common[i]
        } else if i < 23 {
            self.fiq[i - 16]
        } else if i < 25 {
            self.svc[i - 23]
        } else if i < 27 {
            self.abt[i - 25]
        } else if i < 29 {
            self.irq[i - 27]
        } else {
            self.und[i - 29]
        }
    }
}

impl View for Registers {
    type V = Seq<u32>;

    /// All 31 physical registers, numbered as in `reg_slot`.
    closed spec fn view(&self) -> Seq<u32> {
        Seq::new(31, |i: int| self.phys(i))
    }
}

impl Registers {
    pub proof fn lemma_view_len(&self)
        ensures
            self@.len() == phys_count(),
    {
    }

    /// All physical registers zeroed.
    pub fn new() -> (r: Registers)
        ensures
            r@ == Seq::new(31, |i: int| 0u32),
    {
        let r = Registers {
            common: [0; 16],
            fiq: [0; 7],
            svc: [0; 2],
            abt: [0; 2],
            irq: [0; 2],
            und: [0; 2],
        };
        assert(r@ =~= Seq::new(31, |i: int| 0u32));
        r
    }

    /// Logical register `reg` as seen from `mode`.
    pub fn read(&self, mode: Mode, reg: u8) -> (r: u32)
        requires
            reg < 16,
        ensures
            r == self@[reg_slot(mode, reg)],
            self@.len() == phys_count(),
    {
        if reg < 8 || reg == 15 {
            self.common[reg as usize]
        } else if reg <= 12 {
            match mode {
                Mode::Fiq => self.fiq[(reg - 8) as usize],
                _ => self.common[reg as usize],
            }
        } else {
            match mode {
                Mode::Fiq => self.fiq[(reg - 8) as usize],
                Mode::Supervisor => self.svc[(reg - 13) as usize],
                Mode::Abort => self.abt[(reg - 13) as usize],
                Mode::Irq => self.irq[(reg - 13) as usize],
                Mode::Undefined => self.und[(reg - 13) as usize],
                Mode::User | Mode::System => self.common[reg as usize],
            }
        }
    }

    /// Writes logical register `reg` as seen from `mode`; exactly that one
    /// physical register changes.
    pub fn write(&mut self, mode: Mode, reg: u8, value: u32)
        requires
            reg < 16,
        ensures
            final(self)@ == old(self)@.update(reg_slot(mode, reg), value),
            final(self)@.len() == phys_count(),
    {
        if reg < 8 || reg == 15 {
            self.common[reg as usize] = value;
        } else if reg <= 12 {
            match mode {
                Mode::Fiq => {
                    self.fiq[(reg - 8) as usize] = value;
                },
                _ => {
                    self.common[reg as usize] = value;
                },
            }
        } else {
            match mode {
                Mode::Fiq => {
                    self.fiq[(reg - 8) as usize] = value;
                },
                Mode::Supervisor => {
                    self.svc[(reg - 13) as usize] = value;
                },
                Mode::Abort => {
                    self.abt[(reg - 13) as usize] = value;
                },
                Mode::Irq => {
                    self.irq[(reg - 13) as usize] = value;
                },
                Mode::Undefined => {
                    self.und[(reg - 13) as usize] = value;
                },
                Mode::User | Mode::System => {
                    self.common[reg as usize] = value;
                },
            }
        }
        assert(self@ =~= old(self)@.update(reg_slot(mode, reg), value));
    }
}

impl Default for Registers {
    fn default() -> (r: Registers)
        ensures
            r@ == Seq::new(31, |i: int| 0u32),
    {
        Registers::new()
    }
}

/// A write followed by a read of the same register in the same mode gives
/// the written value; any register in any mode that names another physical
/// register keeps its value.
pub proof fn lemma_write_then_read(
    before: Seq<u32>,
    mode: Mode,
    reg: u8,
    value: u32,
    other_mode: Mode,
    other: u8,
)
    requires
        before.len() == phys_count(),
        reg < 16,
        other < 16,
    ensures
        before.update(reg_slot(mode, reg), value)[reg_slot(mode, reg)] == value,
        reg_slot(other_mode, other) != reg_slot(mode, reg) ==> before.update(
            reg_slot(mode, reg),
            value,
        )[reg_slot(other_mode, other)] == before[reg_slot(other_mode, other)],
{
}

/// User and System modes see the same registers; every mode sees the same
/// R0-R7 and PC; only FIQ banks R8-R12.
pub proof fn lemma_bank_sharing(mode: Mode, reg: u8)
    requires
        reg < 16,
    ensures
        reg_slot(Mode::User, reg) == reg_slot(Mode::System, reg),
        (reg < 8 || reg == 15) ==> reg_slot(mode, reg) == reg_slot(Mode::User, reg),
        (8 <= reg <= 12 && !(mode is Fiq)) ==> reg_slot(mode, reg) == reg_slot(Mode::User, reg),
        (13 <= reg <= 14 && !(mode is User) && !(mode is System)) ==> reg_slot(mode, reg)
            != reg_slot(Mode::User, reg),
{
}

} // verus!
