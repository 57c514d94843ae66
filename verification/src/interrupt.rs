//! The interrupt controller's view of the CPU: when an IRQ is presented and
//! how the core enters it.
use vstd::prelude::*;

use crate::arm7tdmi::exception::exception_entry;
use crate::arm7tdmi::psr::bit_of;
use crate::arm7tdmi::{Arm7tdmi, Exception, PC};
use crate::io::{IoRegs, IoView};

verus! {

/// IME enables interrupts and some interrupt is both enabled in IE and
/// requested in IF.
pub open spec fn irq_pending_spec(io: IoView) -> bool {
    io.ime & 1 != 0 && io.ie & io.if_ != 0
}

/// Whether the interrupt controller presents an IRQ to the CPU.
pub fn irq_pending(io: &IoRegs) -> (r: bool)
    ensures
        r == irq_pending_spec(io@),
{
    io.ime_enabled() && io.irq_pending_mask() != 0
}

/// Enter the IRQ exception if an IRQ is presented and the CPSR does not mask
/// it; the return address is the current PC plus four. Returns whether the
/// exception was taken.
pub fn service_irq(cpu: &mut Arm7tdmi, io: &IoRegs) -> (r: bool)
    requires
        old(cpu)@.valid(),
    ensures
        r == (!bit_of(old(cpu)@.cpsr, 7) && irq_pending_spec(io@)),
        r ==> final(cpu)@ == exception_entry(
            old(cpu)@,
            Exception::Irq,
            old(cpu)@.reg(PC).wrapping_add(4),
        ),
        !r ==> final(cpu)@ == old(cpu)@,
        final(cpu)@.valid(),
{
    if cpu.cpsr().irq_disabled() || !irq_pending(io) {
        return false;
    }
    let ret = cpu.pc().wrapping_add(4);
    cpu.enter_exception(Exception::Irq, ret);
    true
}

/// Bit-level facts behind the IRQ line: a bit set in both of two masks
/// leaves their intersection non-zero; a zero mask meets nothing; bit 0
/// tested by `& 1` is the parity.
proof fn lemma_mask_bits(a: u16, b: u16, i: u16)
    by (bit_vector)
    requires
        i < 16,
    ensures
        ((a >> i) & 1 == 1 && (b >> i) & 1 == 1) ==> a & b != 0,
        0u16 & b == 0,
        a & 0u16 == 0,
        (a & 1 != 0) == (a % 2 == 1),
{
}

/// An IRQ is presented exactly when IME's bit 0 is set and some interrupt
/// is both enabled in IE and requested in IF: with IME set, any bit `i`
/// set in both presents one; with nothing enabled, nothing requested, or
/// IME's bit 0 clear, none is presented.
pub proof fn lemma_irq_presented(io: IoView, i: u16)
    requires
        i < 16,
    ensures
        io.ime % 2 == 1 && (io.ie >> i) & 1 == 1 && (io.if_ >> i) & 1 == 1 ==> irq_pending_spec(io),
        io.ie == 0 || io.if_ == 0 || io.ime % 2 == 0 ==> !irq_pending_spec(io),
{
    lemma_mask_bits(io.ie, io.if_, i);
    lemma_mask_bits(io.ime, io.if_, 0);
}

} // verus!
