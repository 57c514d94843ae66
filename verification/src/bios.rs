//! High-level emulation of the BIOS software-interrupt services: when the
//! core has just entered the SWI vector, the requested service is carried
//! out directly and the core returns to the caller.
use vstd::prelude::*;

use crate::arm7tdmi::psr::bit_of;
use crate::arm7tdmi::{Arm7tdmi, CpuView, Mode, Psr, LR, PC};
use crate::bus::{Bus, BusView};

verus! {

pub const SWI_SOFT_RESET: u8 = 0x00;

pub const SWI_REGISTER_RAM_RESET: u8 = 0x01;

pub const SWI_DIV: u8 = 0x06;

/// Whether SWIs are served here or by a BIOS image run on the core.
#[derive(Debug, Clone, Copy, PartialEq, Eq, Structural)]
pub enum BiosBackend {
    Hle,
    External,
}

/// Why a service could not be carried out.
#[derive(Debug, Clone, PartialEq, Eq, Structural)]
pub enum BiosError {
    MissingSupervisorSpsr,
    UnsupportedSwi(u8),
    DivideByZero,
}

/// The BIOS service dispatcher.
#[derive(Debug, Clone, PartialEq, Eq)]
pub struct Bios {
    backend: BiosBackend,
}

/// The SWI pending when the core sits at the SWI vector in supervisor mode:
/// its function number (the low byte of the SWI instruction before the
/// return address), the caller's saved CPSR and the return address.
pub open spec fn pending_swi(cpu: CpuView, bus: BusView) -> Option<(u8, u32, u32)> {
    if cpu.mode() != Mode::Supervisor || cpu.reg(PC) != 8 {
        None
    } else {
        let saved = match cpu.spsr(Mode::Supervisor) {
            Some(v) => v,
            None => 0,
        };
        let lr = cpu.reg_in(Mode::Supervisor, LR);
        let function = if bit_of(saved, 5) {
            (bus.read16(lr.wrapping_sub(2)) & 0x00ff) as u8
        } else {
            (bus.read32(lr.wrapping_sub(4)) & 0x0000_00ff) as u8
        };
        Some((function, saved, lr))
    }
}

/// The caller's state restored: its CPSR back and the PC at the return
/// address, aligned for the restored instruction set.
pub open spec fn returned(cpu: CpuView, saved: u32, lr: u32) -> CpuView {
    cpu.with_cpsr(saved).with_reg(
        PC,
        if bit_of(saved, 5) {
            (lr - lr % 2) as u32
        } else {
            (lr - lr % 4) as u32
        },
    )
}

/// The magnitude of a 32-bit signed value.
pub open spec fn magnitude(v: i32) -> nat {
    if v < 0 {
        (-v) as nat
    } else {
        v as nat
    }
}

/// Signed division rounding toward zero.
pub open spec fn div_quotient(n: i32, d: i32) -> int {
    let q = (magnitude(n) / magnitude(d)) as int;
    if (n < 0) != (d < 0) {
        -q
    } else {
        q
    }
}

/// The remainder of division rounding toward zero: the sign of the
/// dividend.
pub open spec fn div_remainder(n: i32, d: i32) -> int {
    let r = (magnitude(n) % magnitude(d)) as int;
    if n < 0 {
        -r
    } else {
        r
    }
}

/// The registers after the Div service on r0 / r1: quotient in r0,
/// remainder in r1, the quotient's magnitude in r3.
pub open spec fn div_result(cpu: CpuView) -> CpuView {
    let n = cpu.reg(0) as i32;
    let d = cpu.reg(1) as i32;
    cpu.with_reg(0, div_quotient(n, d) as i32 as u32).with_reg(
        1,
        div_remainder(n, d) as i32 as u32,
    ).with_reg(3, (magnitude(n) / magnitude(d)) as u32)
}

/// The Div service's arguments are in range: no division of the most
/// negative value by -1, whose quotient does not fit.
pub open spec fn div_in_range(cpu: CpuView) -> bool {
    !(cpu.reg(0) == 0x8000_0000 && cpu.reg(1) == 0xffff_ffff)
}

impl Bios {
    /// Services served here.
    pub fn new() -> (r: Self)
        ensures
            r.backend_spec() == BiosBackend::Hle,
    {
        Bios { backend: BiosBackend::Hle }
    }

    pub closed spec fn backend_spec(&self) -> BiosBackend {
        self.backend
    }

    pub fn backend(&self) -> (r: BiosBackend)
        ensures
            r == self.backend_spec(),
    {
        self.backend
    }

    /// Leave SWIs to a BIOS image.
    pub fn use_external(&mut self)
        ensures
            final(self).backend_spec() == BiosBackend::External,
    {
        self.backend = BiosBackend::External;
    }

    /// Serve SWIs here.
    pub fn use_hle(&mut self)
        ensures
            final(self).backend_spec() == BiosBackend::Hle,
    {
        self.backend = BiosBackend::Hle;
    }

    /// Serve the pending SWI, if any, when serving them here: `Ok(None)`
    /// when nothing was done, `Ok(Some(cycles))` after a service, an error
    /// for an unknown function or a division by zero. See `execute_swi`.
    pub fn handle_step(&mut self, cpu: &mut Arm7tdmi, bus: &mut Bus) -> (r: Result<
        Option<u32>,
        BiosError,
    >)
        requires
            old(cpu)@.valid(),
            pending_swi(old(cpu)@, old(bus)@) matches Some((f, _, _)) && f == SWI_DIV
                ==> div_in_range(old(cpu)@),
        ensures
            *final(self) == *old(self),
            final(cpu)@.valid(),
            old(self).backend_spec() != BiosBackend::Hle || pending_swi(old(cpu)@, old(bus)@) is None
                ==> r == Ok::<Option<u32>, BiosError>(None) && final(cpu)@ == old(cpu)@
                && final(bus)@ == old(bus)@,
            old(self).backend_spec() == BiosBackend::Hle ==> match pending_swi(
                old(cpu)@,
                old(bus)@,
            ) {
                Some((f, saved, lr)) => swi_outcome(old(cpu)@, old(bus)@, f, saved, lr, r, final(cpu)@, final(bus)@),
                None => true,
            },
    {
        if self.backend != BiosBackend::Hle {
            return Ok(None);
        }
        match decode_pending_swi(cpu, bus) {
            Err(e) => Err(e),
            Ok(None) => Ok(None),
            Ok(Some((function, saved, lr))) => execute_swi(cpu, bus, function, saved, lr),
        }
    }
}

impl Default for Bios {
    fn default() -> (r: Self)
        ensures
            r.backend_spec() == BiosBackend::Hle,
    {
        Bios::new()
    }
}

/// The outcome of service `f` for a caller with CPSR `saved` returning to
/// `lr`: SoftReset restores the CPSR and restarts at the Game Pak entry;
/// RegisterRamReset clears the areas selected by r0 and returns; Div divides
/// r0 by r1 (refusing a zero divisor) and returns; anything else is refused.
pub open spec fn swi_outcome(
    cpu: CpuView,
    bus: BusView,
    f: u8,
    saved: u32,
    lr: u32,
    r: Result<Option<u32>, BiosError>,
    cpu_after: CpuView,
    bus_after: BusView,
) -> bool {
    if f == SWI_SOFT_RESET {
        &&& r == Ok::<Option<u32>, BiosError>(Some(3))
        &&& cpu_after == cpu.with_cpsr(saved).with_reg(PC, 0x0800_0000)
        &&& bus_after == bus
    } else if f == SWI_REGISTER_RAM_RESET {
        &&& r == Ok::<Option<u32>, BiosError>(Some(6))
        &&& cpu_after == returned(cpu, saved, lr)
        &&& bus_after == bus.ram_reset(cpu.reg(0) as u8)
    } else if f == SWI_DIV {
        if cpu.reg(1) as i32 == 0 {
            &&& r == Err::<Option<u32>, BiosError>(BiosError::DivideByZero)
            &&& cpu_after == cpu
            &&& bus_after == bus
        } else {
            &&& r == Ok::<Option<u32>, BiosError>(Some(4))
            &&& cpu_after == returned(div_result(cpu), saved, lr)
            &&& bus_after == bus
        }
    } else {
        &&& r == Err::<Option<u32>, BiosError>(BiosError::UnsupportedSwi(f))
        &&& cpu_after == cpu
        &&& bus_after == bus
    }
}

/// The SWI pending at the SWI vector; see `pending_swi`.
pub fn decode_pending_swi(cpu: &Arm7tdmi, bus: &Bus) -> (r: Result<
    Option<(u8, Psr, u32)>,
    BiosError,
>)
    requires
        cpu@.valid(),
    ensures
        match pending_swi(cpu@, bus@) {
            None => r == Ok::<Option<(u8, Psr, u32)>, BiosError>(None),
            Some((f, saved, lr)) => r matches Ok(Some((f2, s2, lr2))) && f2 == f && s2@ == saved
                && lr2 == lr && s2.valid(),
        },
{
    if cpu.mode() != Mode::Supervisor || cpu.pc() != 8 {
        return Ok(None);
    }
    let saved = match cpu.spsr(Mode::Supervisor) {
        Some(psr) => psr,
        None => {
            return Err(BiosError::MissingSupervisorSpsr);
        },
    };
    let lr = cpu.read_reg_for_mode(Mode::Supervisor, LR);
    let function = if saved.thumb() {
        let opcode = bus.load16(lr.wrapping_sub(2));
        (opcode & 0x00ff) as u8
    } else {
        let opcode = bus.load32(lr.wrapping_sub(4));
        (opcode & 0x0000_00ff) as u8
    };
    Ok(Some((function, saved, lr)))
}

/// Return from the SWI: restore the caller's CPSR and jump to the return
/// address, aligned for the restored instruction set.
pub fn return_from_exception(cpu: &mut Arm7tdmi, saved: Psr, lr: u32)
    requires
        old(cpu)@.valid(),
        saved.valid(),
    ensures
        final(cpu)@ == returned(old(cpu)@, saved@, lr),
        final(cpu)@.valid(),
{
    cpu.set_cpsr(saved);
    let target = if saved.thumb() {
        lr - lr % 2
    } else {
        lr - lr % 4
    };
    cpu.set_pc(target);
}

/// Carry out service `function` for a caller with CPSR `saved` returning to
/// `lr`; see `swi_outcome`.
pub fn execute_swi(cpu: &mut Arm7tdmi, bus: &mut Bus, function: u8, saved: Psr, lr: u32) -> (r:
    Result<Option<u32>, BiosError>)
    requires
        old(cpu)@.valid(),
        saved.valid(),
        function == SWI_DIV ==> div_in_range(old(cpu)@),
    ensures
        final(cpu)@.valid(),
        swi_outcome(old(cpu)@, old(bus)@, function, saved@, lr, r, final(cpu)@, final(bus)@),
{
    if function == SWI_SOFT_RESET {
        cpu.set_cpsr(saved);
        cpu.set_pc(0x0800_0000);
        Ok(Some(3))
    } else if function == SWI_REGISTER_RAM_RESET {
        let reset_mask = cpu.read_reg(0) as u8;
        bus.register_ram_reset(reset_mask);
        return_from_exception(cpu, saved, lr);
        Ok(Some(6))
    } else if function == SWI_DIV {
        let numerator = cpu.read_reg(0) as i32;
        let denominator = cpu.read_reg(1) as i32;
        if denominator == 0 {
            return Err(BiosError::DivideByZero);
        }
        let n_mag: u64 = if numerator < 0 {
            (0i64 - numerator as i64) as u64
        } else {
            numerator as u64
        };
        let d_mag: u64 = if denominator < 0 {
            (0i64 - denominator as i64) as u64
        } else {
            denominator as u64
        };
        let q_mag = n_mag / d_mag;
        let r_mag = n_mag % d_mag;
        let quotient: i64 = if (numerator < 0) != (denominator < 0) {
            0i64 - q_mag as i64
        } else {
            q_mag as i64
        };
        let remainder: i64 = if numerator < 0 {
            0i64 - r_mag as i64
        } else {
            r_mag as i64
        };
        cpu.write_reg(0, quotient as i32 as u32);
        cpu.write_reg(1, remainder as i32 as u32);
        cpu.write_reg(3, q_mag as u32);
        return_from_exception(cpu, saved, lr);
        Ok(Some(4))
    } else {
        Err(BiosError::UnsupportedSwi(function))
    }
}

/// The Div service's quotient and remainder recombine to the dividend, the
/// remainder is smaller than the divisor and has the dividend's sign.
pub proof fn lemma_div_identity(n: i32, d: i32)
    requires
        d != 0,
    ensures
        div_quotient(n, d) * d + div_remainder(n, d) == n,
        div_remainder(n, d) == 0 || (div_remainder(n, d) < 0) == (n < 0),
        -(magnitude(d) as int) < div_remainder(n, d) < magnitude(d),
{
    let a = magnitude(n) as int;
    let b = magnitude(d) as int;
    let q = a / b;
    let r = a % b;
    assert(a == b * q + r && 0 <= r < b) by (nonlinear_arith)
        requires
            b > 0,
            q == a / b,
            r == a % b,
    ;
    if n < 0 && d < 0 {
        assert(q * d == -(b * q)) by (nonlinear_arith)
            requires
                b == -d,
        ;
    } else if n < 0 {
        assert(-q * d == -(b * q)) by (nonlinear_arith)
            requires
                b == d,
        ;
    } else if d < 0 {
        assert(-q * d == b * q) by (nonlinear_arith)
            requires
                b == -d,
        ;
    } else {
        assert(q * d == b * q) by (nonlinear_arith)
            requires
                b == d,
        ;
    }
}

} // verus!
