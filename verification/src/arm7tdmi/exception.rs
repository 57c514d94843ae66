//! Exception metadata and CPU exception entry.
use vstd::prelude::*;
use crate::arm7tdmi::psr::{bit_of, mode_has_spsr, with_bit, with_mode, Mode};
use crate::arm7tdmi::{Arm7tdmi, CpuView, LR, PC};

verus! {

/// Exceptions recognized by the ARM7TDMI core.
#[derive(Debug, Clone, Copy, PartialEq, Eq, Structural)]
pub enum Exception {
    Reset,
    UndefinedInstruction,
    SoftwareInterrupt,
    PrefetchAbort,
    DataAbort,
    Irq,
    Fiq,
}

pub open spec fn vector_address_spec(e: Exception) -> u32 {
    match e {
        Exception::Reset => 0x00,
        Exception::UndefinedInstruction => 0x04,
        Exception::SoftwareInterrupt => 0x08,
        Exception::PrefetchAbort => 0x0c,
        Exception::DataAbort => 0x10,
        Exception::Irq => 0x18,
        Exception::Fiq => 0x1c,
    }
}

pub open spec fn entry_mode_spec(e: Exception) -> Mode {
    match e {
        Exception::Reset | Exception::SoftwareInterrupt => Mode::Supervisor,
        Exception::UndefinedInstruction => Mode::Undefined,
        Exception::PrefetchAbort | Exception::DataAbort => Mode::Abort,
        Exception::Irq => Mode::Irq,
        Exception::Fiq => Mode::Fiq,
    }
}

pub open spec fn sets_fiq_disable_spec(e: Exception) -> bool {
    e is Reset || e is Fiq
}

/// The CPSR on exception entry: the entry mode, IRQs masked, FIQs masked for
/// Reset and FIQ (left as they were otherwise), ARM state.
pub open spec fn entry_cpsr(cpsr: u32, e: Exception) -> u32 {
    let with_m = with_mode(cpsr, entry_mode_spec(e));
    let with_i = with_bit(with_m, 7, true);
    let with_f = if sets_fiq_disable_spec(e) {
        with_bit(with_i, 6, true)
    } else {
        with_i
    };
    with_bit(with_f, 5, false)
}

/// The state after taking exception `e` with return address `return_address`:
/// the old CPSR is saved in the entry mode's SPSR and the return address in
/// its LR (neither for Reset), the CPSR changes as `entry_cpsr` says and the
/// PC holds the vector.
pub open spec fn exception_entry(s: CpuView, e: Exception, return_address: u32) -> CpuView {
    let target = entry_mode_spec(e);
    let saved = if e is Reset {
        s
    } else {
        s.with_spsr(target, s.cpsr).with_reg_in(target, LR, return_address)
    };
    saved.with_cpsr(entry_cpsr(s.cpsr, e)).with_reg_in(target, PC, vector_address_spec(e))
}

impl Exception {
    pub fn vector_address(self) -> (r: u32)
        ensures
            r == vector_address_spec(self),
    {
        match self {
            Exception::Reset => 0x0000_0000,
            Exception::UndefinedInstruction => 0x0000_0004,
            Exception::SoftwareInterrupt => 0x0000_0008,
            Exception::PrefetchAbort => 0x0000_000c,
            Exception::DataAbort => 0x0000_0010,
            Exception::Irq => 0x0000_0018,
            Exception::Fiq => 0x0000_001c,
        }
    }

    pub fn entry_mode(self) -> (r: Mode)
        ensures
            r == entry_mode_spec(self),
    {
        match self {
            Exception::Reset | Exception::SoftwareInterrupt => Mode::Supervisor,
            Exception::UndefinedInstruction => Mode::Undefined,
            Exception::PrefetchAbort | Exception::DataAbort => Mode::Abort,
            Exception::Irq => Mode::Irq,
            Exception::Fiq => Mode::Fiq,
        }
    }

    /// Every exception masks IRQs.
    pub fn sets_irq_disable(self) -> (r: bool)
        ensures
            r,
    {
        true
    }

    /// Reset and FIQ also mask FIQs.
    pub fn sets_fiq_disable(self) -> (r: bool)
        ensures
            r == sets_fiq_disable_spec(self),
    {
        match self {
            Exception::Reset | Exception::Fiq => true,
            _ => false,
        }
    }

    /// The amount a typical exception return sequence subtracts from LR
    /// (for example `SUBS PC, LR_irq, #4` returns from an IRQ); none for Reset.
    pub fn return_subtract(self) -> (r: Option<u32>)
        ensures
            r == match self {
                Exception::Reset => None,
                Exception::SoftwareInterrupt | Exception::UndefinedInstruction => Some(0u32),
                Exception::PrefetchAbort | Exception::Irq | Exception::Fiq => Some(4u32),
                Exception::DataAbort => Some(8u32),
            },
    {
        match self {
            Exception::Reset => None,
            Exception::SoftwareInterrupt | Exception::UndefinedInstruction => Some(0),
            Exception::PrefetchAbort | Exception::Irq | Exception::Fiq => Some(4),
            Exception::DataAbort => Some(8),
        }
    }
}

/// Every exception entry lands in its entry mode, in ARM state, with IRQs
/// masked, at its vector; except for Reset it saves the old CPSR in that
/// mode's SPSR and the return address in that mode's LR.
pub proof fn lemma_exception_entry(s: CpuView, e: Exception, return_address: u32)
    requires
        s.valid(),
    ensures
        exception_entry(s, e, return_address).valid(),
        exception_entry(s, e, return_address).mode() == entry_mode_spec(e),
        !exception_entry(s, e, return_address).thumb(),
        bit_of(exception_entry(s, e, return_address).cpsr, 7),
        sets_fiq_disable_spec(e) ==> bit_of(exception_entry(s, e, return_address).cpsr, 6),
        exception_entry(s, e, return_address).reg(PC) == vector_address_spec(e),
        !(e is Reset) ==> exception_entry(s, e, return_address).spsr(entry_mode_spec(e)) == Some(
            s.cpsr,
        ),
        !(e is Reset) ==> exception_entry(s, e, return_address).reg(LR) == return_address,
{
    let target = entry_mode_spec(e);
    let c0 = with_mode(s.cpsr, target);
    crate::arm7tdmi::psr::lemma_with_mode(s.cpsr, target);
    crate::arm7tdmi::psr::lemma_with_bit_keeps_mode(c0, 7, true);
    let c1 = with_bit(c0, 7, true);
    crate::arm7tdmi::psr::lemma_with_bit_keeps_mode(c1, 6, true);
    let c2 = if sets_fiq_disable_spec(e) {
        with_bit(c1, 6, true)
    } else {
        c1
    };
    crate::arm7tdmi::psr::lemma_with_bit_keeps_mode(c2, 5, false);
    crate::arm7tdmi::psr::lemma_with_bit(c2, 5, false, 5);
    crate::arm7tdmi::psr::lemma_with_bit(c2, 5, false, 7);
    crate::arm7tdmi::psr::lemma_with_bit(c2, 5, false, 6);
    crate::arm7tdmi::psr::lemma_with_bit(c1, 6, true, 7);
    crate::arm7tdmi::psr::lemma_with_bit(c1, 6, true, 6);
    crate::arm7tdmi::psr::lemma_with_bit(c0, 7, true, 7);
    let r = exception_entry(s, e, return_address);
    assert(r.mode() == target);
    assert(mode_has_spsr(target) || e is Reset);
}

impl Arm7tdmi {
    /// Enters an exception with an explicitly supplied architectural return
    /// address.
    pub fn enter_exception(&mut self, exception: Exception, return_address: u32)
        requires
            old(self)@.valid(),
        ensures
            final(self)@ == exception_entry(old(self)@, exception, return_address),
            final(self)@.valid(),
    {
        proof {
            lemma_exception_entry(old(self)@, exception, return_address);
        }
        let old_cpsr = self.cpsr();
        let target_mode = exception.entry_mode();
        match exception {
            Exception::Reset => {},
            _ => {
                self.set_spsr(target_mode, old_cpsr);
                self.write_reg_for_mode(target_mode, LR, return_address);
            },
        }
        let mut cpsr = old_cpsr;
        cpsr.set_mode(target_mode);
        cpsr.set_irq_disabled(exception.sets_irq_disable());
        if exception.sets_fiq_disable() {
            cpsr.set_fiq_disabled(true);
        }
        cpsr.set_thumb(false);
        proof {
            crate::arm7tdmi::psr::lemma_with_mode(old_cpsr@, target_mode);
            let c0 = with_mode(old_cpsr@, target_mode);
            crate::arm7tdmi::psr::lemma_with_bit_keeps_mode(c0, 7, true);
            let c1 = with_bit(c0, 7, true);
            crate::arm7tdmi::psr::lemma_with_bit_keeps_mode(c1, 6, true);
            let c2 = if sets_fiq_disable_spec(exception) {
                with_bit(c1, 6, true)
            } else {
                c1
            };
            crate::arm7tdmi::psr::lemma_with_bit_keeps_mode(c2, 5, false);
        }
        self.set_cpsr(cpsr);
        self.write_reg_for_mode(target_mode, PC, exception.vector_address());
    }
}

/// The exception vector table: Reset at 0x00 in Supervisor mode, the
/// undefined instruction at 0x04 in Undefined mode, SWI at 0x08 in
/// Supervisor mode, the prefetch abort at 0x0C and the data abort at 0x10 in
/// Abort mode, IRQ at 0x18 in IRQ mode and FIQ at 0x1C in FIQ mode; only
/// Reset and FIQ also mask FIQs.
pub proof fn lemma_exception_vectors(s: CpuView, ret: u32)
    requires
        s.valid(),
    ensures
        exception_entry(s, Exception::Reset, ret).reg(PC) == 0x00 && exception_entry(s, Exception::Reset, ret).mode() == Mode::Supervisor,
        exception_entry(s, Exception::UndefinedInstruction, ret).reg(PC) == 0x04 && exception_entry(s, Exception::UndefinedInstruction, ret).mode() == Mode::Undefined,
        exception_entry(s, Exception::SoftwareInterrupt, ret).reg(PC) == 0x08 && exception_entry(s, Exception::SoftwareInterrupt, ret).mode() == Mode::Supervisor,
        exception_entry(s, Exception::PrefetchAbort, ret).reg(PC) == 0x0c && exception_entry(s, Exception::PrefetchAbort, ret).mode() == Mode::Abort,
        exception_entry(s, Exception::DataAbort, ret).reg(PC) == 0x10 && exception_entry(s, Exception::DataAbort, ret).mode() == Mode::Abort,
        exception_entry(s, Exception::Irq, ret).reg(PC) == 0x18 && exception_entry(s, Exception::Irq, ret).mode() == Mode::Irq,
        exception_entry(s, Exception::Fiq, ret).reg(PC) == 0x1c && exception_entry(s, Exception::Fiq, ret).mode() == Mode::Fiq,
        bit_of(exception_entry(s, Exception::Fiq, ret).cpsr, 6) && bit_of(exception_entry(s, Exception::Reset, ret).cpsr, 6),
{
    lemma_exception_entry(s, Exception::Reset, ret);
    lemma_exception_entry(s, Exception::UndefinedInstruction, ret);
    lemma_exception_entry(s, Exception::SoftwareInterrupt, ret);
    lemma_exception_entry(s, Exception::PrefetchAbort, ret);
    lemma_exception_entry(s, Exception::DataAbort, ret);
    lemma_exception_entry(s, Exception::Irq, ret);
    lemma_exception_entry(s, Exception::Fiq, ret);
}

/// Returning from an exception undoes its entry: taken from a mode other
/// than its own (and other than Reset), restoring the CPSR from the entry
/// mode's SPSR brings back the interrupted CPSR exactly, and with it every
/// register but the PC as the interrupted code saw it.
#[verifier::spinoff_prover]
#[verifier::rlimit(40)]
pub proof fn lemma_exception_round_trip(s: CpuView, e: Exception, ret: u32)
    requires
        s.valid(),
        !(e is Reset),
        s.mode() != entry_mode_spec(e),
    ensures
        exception_entry(s, e, ret).restore_cpsr().cpsr == s.cpsr,
        forall|r: u8| r < 15 ==> #[trigger] exception_entry(s, e, ret).restore_cpsr().reg(r) == s.reg(r),
{
    lemma_exception_entry(s, e, ret);
    let t = exception_entry(s, e, ret);
    let target = entry_mode_spec(e);
    assert(t.restore_cpsr().cpsr == s.cpsr);
    assert(t.restore_cpsr().mode() == s.mode());
    assert forall|r: u8| r < 15 implies #[trigger] t.restore_cpsr().reg(r) == s.reg(r) by {
        crate::arm7tdmi::reg::lemma_reg_slot_in_range(s.mode(), r);
        crate::arm7tdmi::reg::lemma_reg_slot_in_range(target, LR);
        assert(crate::arm7tdmi::reg::reg_slot(s.mode(), r) != crate::arm7tdmi::reg::reg_slot(target, LR));
        assert(crate::arm7tdmi::reg::reg_slot(s.mode(), r) != crate::arm7tdmi::reg::reg_slot(target, PC));
    }
}

} // verus!
