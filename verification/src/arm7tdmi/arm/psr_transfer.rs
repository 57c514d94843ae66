//! ARM PSR transfers: MRS and MSR.
use vstd::prelude::*;
use crate::arm7tdmi::alu::rotate_right;
use crate::arm7tdmi::arm::data_proc::ror_any;
use crate::arm7tdmi::psr::{mode_from_bits_spec, psr_mode, Mode};
use crate::arm7tdmi::arm::{opcode_bit, reg_at, reg_field, write_exec_reg, write_exec_spec, ExecutionResult};
use crate::arm7tdmi::psr::bit_of;
use crate::arm7tdmi::{Arm7tdmi, CpuView, Psr};

verus! {

pub open spec fn is_mrs_spec(opcode: u32) -> bool {
    opcode & 0x0fbf_0fff == 0x010f_0000
}

pub open spec fn is_msr_spec(opcode: u32) -> bool {
    opcode & 0x0db0_f000 == 0x0120_f000 || opcode & 0x0db0_f000 == 0x0320_f000
}

pub fn is_mrs(opcode: u32) -> (r: bool)
    ensures
        r == is_mrs_spec(opcode),
{
    (opcode & 0x0fbf_0fff) == 0x010f_0000
}

pub fn is_msr(opcode: u32) -> (r: bool)
    ensures
        r == is_msr_spec(opcode),
{
    (opcode & 0x0db0_f000) == 0x0120_f000 || (opcode & 0x0db0_f000) == 0x0320_f000
}

/// MRS: Rd takes the CPSR, or with bit 22 the SPSR of the current mode (the
/// CPSR when the mode has none).
pub open spec fn mrs_spec(s: CpuView, opcode: u32) -> (CpuView, bool) {
    let value = if bit_of(opcode, 22) {
        match s.spsr(s.mode()) {
            Some(v) => v,
            None => s.cpsr,
        }
    } else {
        s.cpsr
    };
    write_exec_spec(s, reg_field(opcode, 12), value)
}

pub fn execute_mrs(cpu: &mut Arm7tdmi, opcode: u32) -> (r: ExecutionResult)
    requires
        old(cpu)@.valid(),
    ensures
        (final(cpu)@, r.wrote_pc) == mrs_spec(old(cpu)@, opcode),
        final(cpu)@.valid(),
        r.cycles == 1,
{
    let use_spsr = opcode_bit(opcode, 22);
    let rd = reg_at(opcode, 12);
    let value = if use_spsr {
        match cpu.spsr(cpu.mode()) {
            Some(saved) => saved.bits(),
            None => cpu.cpsr().bits(),
        }
    } else {
        cpu.cpsr().bits()
    };
    let wrote_pc = write_exec_reg(cpu, rd, value);
    ExecutionResult { cycles: 1, wrote_pc }
}

/// The rotated 8-bit immediate of an MSR.
pub open spec fn msr_immediate_spec(opcode: u32) -> u32 {
    ror_any(opcode & 0xff, (((opcode >> 8) & 0xf) * 2) as u32)
}

/// Replaces the bytes of `current` selected by the field mask (f, s, x, c
/// from bit 3 down) with those of `source`; the control byte only when
/// allowed. A result whose mode field names no mode keeps the old mode field.
pub open spec fn field_mask_spec(current: u32, source: u32, field_mask: u8, allow_control: bool) -> u32 {
    let b0 = if field_mask & 0x8 != 0 {
        (current & 0x00ff_ffff) | (source & 0xff00_0000)
    } else {
        current
    };
    let b1 = if field_mask & 0x4 != 0 {
        (b0 & 0xff00_ffff) | (source & 0x00ff_0000)
    } else {
        b0
    };
    let b2 = if field_mask & 0x2 != 0 {
        (b1 & 0xffff_00ff) | (source & 0x0000_ff00)
    } else {
        b1
    };
    let b3 = if allow_control && field_mask & 0x1 != 0 {
        (b2 & 0xffff_ff00) | (source & 0x0000_00ff)
    } else {
        b2
    };
    if mode_from_bits_spec((b3 & 0x1f) as u8) is None {
        (b3 & !0x1fu32) | (current & 0x1f)
    } else {
        b3
    }
}

/// MSR: writes the selected fields of the CPSR (or, with bit 22, of the
/// current mode's SPSR, if it has one) from Rm or a rotated immediate. In
/// User mode only the flag byte can change.
pub open spec fn msr_spec(s: CpuView, opcode: u32) -> CpuView {
    let privileged = !(s.mode() is User);
    let raw_mask = ((opcode >> 16) & 0xf) as u8;
    let field_mask = if privileged {
        raw_mask
    } else {
        raw_mask & 0x8
    };
    let source = if bit_of(opcode, 25) {
        msr_immediate_spec(opcode)
    } else {
        s.reg(reg_field(opcode, 0))
    };
    if bit_of(opcode, 22) {
        match s.spsr(s.mode()) {
            Some(current) => s.with_spsr(s.mode(), field_mask_spec(current, source, field_mask, true)),
            None => s,
        }
    } else {
        s.with_cpsr(field_mask_spec(s.cpsr, source, field_mask, privileged))
    }
}

/// The byte merges an MSR makes, over plain words.
proof fn lemma_field_mask_bits(c: u32, src: u32, f: bool, s: bool, x: bool, k: bool)
    by (bit_vector)
    ensures
        ({
            let b0 = if f {
                (c & 0x00ff_ffff) | (src & 0xff00_0000)
            } else {
                c
            };
            let b1 = if s {
                (b0 & 0xff00_ffff) | (src & 0x00ff_0000)
            } else {
                b0
            };
            let b2 = if x {
                (b1 & 0xffff_00ff) | (src & 0x0000_ff00)
            } else {
                b1
            };
            let b3 = if k {
                (b2 & 0xffff_ff00) | (src & 0x0000_00ff)
            } else {
                b2
            };
            let fixed = (b3 & !0x1fu32) | (c & 0x1f);
            &&& b3 & 0xff00_0000 == (if f {
                src
            } else {
                c
            }) & 0xff00_0000
            &&& b3 & 0x00ff_0000 == (if s {
                src
            } else {
                c
            }) & 0x00ff_0000
            &&& b3 & 0x0000_ff00 == (if x {
                src
            } else {
                c
            }) & 0x0000_ff00
            &&& !k ==> b3 & 0xff == c & 0xff && b3 & 0x1f == c & 0x1f
            &&& fixed & 0xff00_0000 == b3 & 0xff00_0000
            &&& fixed & 0x00ff_0000 == b3 & 0x00ff_0000
            &&& fixed & 0x0000_ff00 == b3 & 0x0000_ff00
            &&& !k ==> fixed & 0xff == c & 0xff
            &&& fixed & 0x1f == c & 0x1f
        }),
{
}

/// MSR's field mask from a PSR with a valid mode: the flags byte (mask bit
/// 3), the status byte (bit 2) and the extension byte (bit 1) each come from
/// `source` when selected and stay otherwise; the control byte stays unless
/// it is both selected (bit 0) and allowed; and the result's mode field is
/// always valid.
pub proof fn lemma_field_mask_bytes(current: u32, source: u32, field_mask: u8, allow_control: bool)
    requires
        psr_mode(current) is Some,
    ensures
        ({
            let r = field_mask_spec(current, source, field_mask, allow_control);
            &&& psr_mode(r) is Some
            &&& r & 0xff00_0000 == (if field_mask & 0x8 != 0 {
                source
            } else {
                current
            }) & 0xff00_0000
            &&& r & 0x00ff_0000 == (if field_mask & 0x4 != 0 {
                source
            } else {
                current
            }) & 0x00ff_0000
            &&& r & 0x0000_ff00 == (if field_mask & 0x2 != 0 {
                source
            } else {
                current
            }) & 0x0000_ff00
            &&& !(allow_control && field_mask & 0x1 != 0) ==> r & 0xff == current & 0xff
        }),
{
    let f = field_mask & 0x8 != 0;
    let s = field_mask & 0x4 != 0;
    let x = field_mask & 0x2 != 0;
    let k = allow_control && field_mask & 0x1 != 0;
    lemma_field_mask_bits(current, source, f, s, x, k);
    let b0 = if f {
        (current & 0x00ff_ffff) | (source & 0xff00_0000)
    } else {
        current
    };
    let b1 = if s {
        (b0 & 0xff00_ffff) | (source & 0x00ff_0000)
    } else {
        b0
    };
    let b2 = if x {
        (b1 & 0xffff_00ff) | (source & 0x0000_ff00)
    } else {
        b1
    };
    let b3 = if k {
        (b2 & 0xffff_ff00) | (source & 0x0000_00ff)
    } else {
        b2
    };
    let fixed = (b3 & !0x1fu32) | (current & 0x1f);
    let r = field_mask_spec(current, source, field_mask, allow_control);
    if mode_from_bits_spec((b3 & 0x1f) as u8) is None {
        assert(r == fixed);
    } else {
        assert(r == b3);
    }
}

pub fn execute_msr(cpu: &mut Arm7tdmi, opcode: u32) -> (r: ExecutionResult)
    requires
        old(cpu)@.valid(),
    ensures
        final(cpu)@ == msr_spec(old(cpu)@, opcode),
        final(cpu)@.valid(),
        r == ExecutionResult::sequential_spec(1),
{
    let immediate = opcode_bit(opcode, 25);
    let use_spsr = opcode_bit(opcode, 22);
    let mut field_mask = ((opcode >> 16) & 0xf) as u8;
    let mode = cpu.mode();
    let privileged = mode.is_privileged();
    if !privileged {
        field_mask = field_mask & 0x8;
    }
    let source = if immediate {
        decode_immediate(opcode)
    } else {
        cpu.read_reg(reg_at(opcode, 0))
    };
    if use_spsr {
        if let Some(current) = cpu.spsr(mode) {
            let updated = apply_field_mask(current, source, field_mask, true);
            cpu.set_spsr(mode, updated);
        }
    } else {
        let updated = apply_field_mask(cpu.cpsr(), source, field_mask, privileged);
        cpu.set_cpsr(updated);
    }
    ExecutionResult::sequential(1)
}

fn decode_immediate(opcode: u32) -> (r: u32)
    ensures
        r == msr_immediate_spec(opcode),
{
    let imm = opcode & 0xff;
    assert(((opcode >> 8) & 0xf) < 16) by (bit_vector);
    let rotate = ((opcode >> 8) & 0xf) * 2;
    if rotate == 0 {
        imm
    } else {
        rotate_right(imm, rotate)
    }
}

fn apply_field_mask(current: Psr, source: u32, field_mask: u8, allow_control: bool) -> (r: Psr)
    requires
        current.valid(),
    ensures
        r@ == field_mask_spec(current@, source, field_mask, allow_control),
        r.valid(),
{
    let mut bits = current.bits();
    if (field_mask & 0x8) != 0 {
        bits = (bits & 0x00ff_ffff) | (source & 0xff00_0000);
    }
    if (field_mask & 0x4) != 0 {
        bits = (bits & 0xff00_ffff) | (source & 0x00ff_0000);
    }
    if (field_mask & 0x2) != 0 {
        bits = (bits & 0xffff_00ff) | (source & 0x0000_ff00);
    }
    if allow_control && (field_mask & 0x1) != 0 {
        bits = (bits & 0xffff_ff00) | (source & 0x0000_00ff);
    }
    if Mode::from_bits((bits & 0x1f) as u8).is_none() {
        let c = current.bits();
        let b = bits;
        assert(((b & !0x1fu32) | (c & 0x1f)) & 0x1f == c & 0x1f) by (bit_vector);
        bits = (bits & !0x1fu32) | (current.bits() & 0x1f);
    }
    Psr::from_bits(bits)
}

} // verus!
