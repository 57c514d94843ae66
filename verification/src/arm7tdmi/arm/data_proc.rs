//! ARM data-processing instructions (AND ... MVN) with their operand-2
//! decoding.
use vstd::prelude::*;
use vstd::arithmetic::power2::pow2;
use crate::arm7tdmi::alu::{
    add_with_carry, add_with_carry_spec, rotate_right, rotate_right_spec, shift_immediate,
    shift_immediate_spec, shift_register, shift_register_spec, ArithmeticResult, ShiftKind,
    ShiftResult,
};
use crate::arm7tdmi::psr::{bit_of, lemma_flags_keep_mode, with_bit, with_nz, with_nzcv};
use crate::arm7tdmi::arm::{
    exec_reg_spec, lemma_reg_field, opcode_bit, read_exec_reg, reg_at, reg_field, write_exec_reg,
    write_exec_spec, ExecutionResult,
};
use crate::arm7tdmi::{Arm7tdmi, CpuView, PC};

verus! {

pub open spec fn is_data_processing_spec(opcode: u32) -> bool {
    opcode & 0x0c00_0000 == 0
}

pub fn is_data_processing(opcode: u32) -> (r: bool)
    ensures
        r == is_data_processing_spec(opcode),
{
    (opcode & 0x0c00_0000) == 0
}

/// A register read by a data-processing instruction: R15 reads as the
/// instruction address plus 12 when the shift amount comes from a register.
pub open spec fn dp_reg_spec(s: CpuView, reg: u8, fetch_pc: u32, register_shift: bool) -> u32 {
    if reg == PC && register_shift {
        fetch_pc.wrapping_add(12)
    } else {
        exec_reg_spec(s, reg, fetch_pc)
    }
}

/// Rotation right by any amount below 32 (0 leaves the value).
pub open spec fn ror_any(value: u32, r: u32) -> u32 {
    if r == 0 {
        value
    } else {
        rotate_right_spec(value, r)
    }
}

/// The shift type named by a two-bit field.
pub open spec fn shift_kind_spec(bits: u32) -> ShiftKind {
    if bits == 0 {
        ShiftKind::Lsl
    } else if bits == 1 {
        ShiftKind::Lsr
    } else if bits == 2 {
        ShiftKind::Asr
    } else {
        ShiftKind::Ror
    }
}

pub fn shift_kind(bits: u32) -> (r: ShiftKind)
    ensures
        r == shift_kind_spec(bits),
{
    if bits == 0 {
        ShiftKind::Lsl
    } else if bits == 1 {
        ShiftKind::Lsr
    } else if bits == 2 {
        ShiftKind::Asr
    } else {
        ShiftKind::Ror
    }
}

/// The second operand with its shifter carry: a rotated 8-bit immediate
/// (carry from bit 31 unless the rotation is 0), or Rm shifted by an
/// immediate amount or by the low byte of Rs.
pub open spec fn operand2_spec(
    s: CpuView,
    opcode: u32,
    fetch_pc: u32,
    register_shift: bool,
) -> ShiftResult {
    let carry = bit_of(s.cpsr, 29);
    if bit_of(opcode, 25) {
        let rotate = (((opcode >> 8) & 0xf) * 2) as u32;
        let value = ror_any(opcode & 0xff, rotate);
        ShiftResult {
            value,
            carry_out: if rotate == 0 {
                carry
            } else {
                bit_of(value, 31)
            },
        }
    } else {
        let value = dp_reg_spec(s, reg_field(opcode, 0), fetch_pc, register_shift);
        let kind = shift_kind_spec((opcode >> 5) & 0x3);
        if bit_of(opcode, 4) {
            let amount = (dp_reg_spec(s, reg_field(opcode, 8), fetch_pc, register_shift) & 0xff) as u8;
            shift_register_spec(kind, value, amount, carry)
        } else {
            shift_immediate_spec(kind, value, ((opcode >> 7) & 0x1f) as u8, carry)
        }
    }
}

/// The second operand of a data-processing instruction. An immediate
/// (bit 25) is the 8-bit field rotated right by twice the 4-bit field in
/// bits 8-11: unrotated it passes the carry flag through, rotated it
/// carries out its own bit 31. Otherwise Rm is shifted by the type in bits
/// 5-6 (LSL, LSR, ASR, ROR), by the 5-bit amount in bits 7-11 (bit 4
/// clear) through the barrel shifter's immediate forms.
#[verifier::spinoff_prover]
#[verifier::rlimit(40)]
pub proof fn lemma_operand2(s: CpuView, opcode: u32, fetch_pc: u32, register_shift: bool)
    ensures
        ({
            let op2 = operand2_spec(s, opcode, fetch_pc, register_shift);
            let imm = opcode as int % 256;
            let rot = 2 * ((opcode as int / 256) % 16);
            let c = bit_of(s.cpsr, 29);
            let rm = dp_reg_spec(s, reg_field(opcode, 0), fetch_pc, register_shift);
            let amount = ((opcode as int / 128) % 32) as u8;
            let kind_bits = (opcode as int / 32) % 4;
            &&& (bit_of(opcode, 25) && rot == 0) ==> op2.value == imm && op2.carry_out == c
            &&& (bit_of(opcode, 25) && rot != 0) ==> op2.value == imm / (pow2(rot as nat) as int) + (imm % (pow2(
                rot as nat) as int)) * (pow2((32 - rot) as nat) as int) && op2.carry_out == (op2.value >= 0x8000_0000)
            &&& (!bit_of(opcode, 25) && !bit_of(opcode, 4) && kind_bits == 0) ==> op2 == shift_immediate_spec(ShiftKind::Lsl, rm, amount, c)
            &&& (!bit_of(opcode, 25) && !bit_of(opcode, 4) && kind_bits == 1) ==> op2 == shift_immediate_spec(ShiftKind::Lsr, rm, amount, c)
            &&& (!bit_of(opcode, 25) && !bit_of(opcode, 4) && kind_bits == 2) ==> op2 == shift_immediate_spec(ShiftKind::Asr, rm, amount, c)
            &&& (!bit_of(opcode, 25) && !bit_of(opcode, 4) && kind_bits == 3) ==> op2 == shift_immediate_spec(ShiftKind::Ror, rm, amount, c)
        }),
{
    lemma_reg_field(opcode, 8);
    let rotate = (((opcode >> 8) & 0xf) * 2) as u32;
    let value = ror_any(opcode & 0xff, rotate);
    if bit_of(opcode, 25) && rotate != 0 {
        crate::arm7tdmi::alu::lemma_shifter_arithmetic(opcode & 0xff, rotate as u8, false);
        crate::arm7tdmi::psr::lemma_sign_bit(value);
    }
}

/// The flags a logical operation with S set leaves: N and Z from the
/// result, C from the shifter.
pub open spec fn logical_flags(cpsr: u32, value: u32, carry: bool) -> u32 {
    with_bit(with_nz(cpsr, value), 29, carry)
}

/// Writing a logical result: with S set, a write to R15 restores the CPSR
/// from the SPSR; any other destination sets N, Z and C.
pub open spec fn write_result_spec(
    s: CpuView,
    rd: u8,
    value: u32,
    set_flags: bool,
    carry: bool,
) -> (CpuView, bool) {
    let (t, wrote) = write_exec_spec(s, rd, value);
    if set_flags {
        if rd == PC {
            (t.restore_cpsr(), wrote)
        } else {
            (t.with_cpsr(logical_flags(t.cpsr, value, carry)), wrote)
        }
    } else {
        (t, wrote)
    }
}

/// Writing an arithmetic result: as `write_result_spec` but setting all
/// four flags.
pub open spec fn write_arithmetic_spec(
    s: CpuView,
    rd: u8,
    result: ArithmeticResult,
    set_flags: bool,
) -> (CpuView, bool) {
    let (t, wrote) = write_exec_spec(s, rd, result.value);
    if set_flags {
        if rd == PC {
            (t.restore_cpsr(), wrote)
        } else {
            (t.with_cpsr(with_nzcv(t.cpsr, result.value, result.carry_out, result.overflow)), wrote)
        }
    } else {
        (t, wrote)
    }
}

/// A data-processing result written to R15 with S set in ARM state (such
/// as `MOVS pc, lr`): the PC takes the value word-aligned, no flag is
/// computed from it, and the CPSR becomes the current mode's SPSR (kept
/// when the mode has none); the write counts as a branch.
pub proof fn lemma_movs_pc_restores_cpsr(s: CpuView, value: u32, carry: bool, result: ArithmeticResult)
    requires
        s.valid(),
        !s.thumb(),
    ensures
        ({
            let (t, wrote) = write_result_spec(s, PC, value, true, carry);
            &&& wrote
            &&& t.reg(PC) == value & !3u32
            &&& t.cpsr == match s.spsr(s.mode()) {
                Some(saved) => saved,
                None => s.cpsr,
            }
        }),
        ({
            let (t, wrote) = write_arithmetic_spec(s, PC, result, true);
            &&& wrote
            &&& t.reg(PC) == result.value & !3u32
            &&& t.cpsr == match s.spsr(s.mode()) {
                Some(saved) => saved,
                None => s.cpsr,
            }
        }),
{
    let t = s.with_reg(PC, value & !3u32);
    assert(t.mode() == s.mode());
    crate::arm7tdmi::reg::lemma_reg_slot_in_range(s.mode(), PC);
    let u = s.with_reg(PC, result.value & !3u32);
    assert(u.mode() == s.mode());
}

/// TST/TEQ: flags only (R15 as destination restores the CPSR instead).
pub open spec fn test_flags_spec(s: CpuView, rd: u8, value: u32, carry: bool) -> CpuView {
    if rd == PC {
        s.restore_cpsr()
    } else {
        s.with_cpsr(logical_flags(s.cpsr, value, carry))
    }
}

/// CMP/CMN: flags only (R15 as destination restores the CPSR instead).
pub open spec fn compare_flags_spec(s: CpuView, rd: u8, result: ArithmeticResult) -> CpuView {
    if rd == PC {
        s.restore_cpsr()
    } else {
        s.with_cpsr(with_nzcv(s.cpsr, result.value, result.carry_out, result.overflow))
    }
}

/// The state after a data-processing instruction and whether it wrote the PC.
pub open spec fn data_processing_spec(s: CpuView, opcode: u32, fetch_pc: u32) -> (CpuView, bool) {
    let op = (opcode >> 21) & 0xf;
    let set_flags = bit_of(opcode, 20);
    let rn = reg_field(opcode, 16);
    let rd = reg_field(opcode, 12);
    let register_shift = !bit_of(opcode, 25) && bit_of(opcode, 4);
    let op2 = operand2_spec(s, opcode, fetch_pc, register_shift);
    let a = dp_reg_spec(s, rn, fetch_pc, register_shift);
    let b = op2.value;
    let c = bit_of(s.cpsr, 29);
    if op == 0x0 {
        write_result_spec(s, rd, a & b, set_flags, op2.carry_out)
    } else if op == 0x1 {
        write_result_spec(s, rd, a ^ b, set_flags, op2.carry_out)
    } else if op == 0x2 {
        write_arithmetic_spec(s, rd, add_with_carry_spec(a, !b, true), set_flags)
    } else if op == 0x3 {
        write_arithmetic_spec(s, rd, add_with_carry_spec(b, !a, true), set_flags)
    } else if op == 0x4 {
        write_arithmetic_spec(s, rd, add_with_carry_spec(a, b, false), set_flags)
    } else if op == 0x5 {
        write_arithmetic_spec(s, rd, add_with_carry_spec(a, b, c), set_flags)
    } else if op == 0x6 {
        write_arithmetic_spec(s, rd, add_with_carry_spec(a, !b, c), set_flags)
    } else if op == 0x7 {
        write_arithmetic_spec(s, rd, add_with_carry_spec(b, !a, c), set_flags)
    } else if op == 0x8 {
        (test_flags_spec(s, rd, a & b, op2.carry_out), false)
    } else if op == 0x9 {
        (test_flags_spec(s, rd, a ^ b, op2.carry_out), false)
    } else if op == 0xa {
        (compare_flags_spec(s, rd, add_with_carry_spec(a, !b, true)), false)
    } else if op == 0xb {
        (compare_flags_spec(s, rd, add_with_carry_spec(a, b, false)), false)
    } else if op == 0xc {
        write_result_spec(s, rd, a | b, set_flags, op2.carry_out)
    } else if op == 0xd {
        write_result_spec(s, rd, b, set_flags, op2.carry_out)
    } else if op == 0xe {
        write_result_spec(s, rd, a & !b, set_flags, op2.carry_out)
    } else {
        write_result_spec(s, rd, !b, set_flags, op2.carry_out)
    }
}

/// What the data-processing instructions that write Rd compute, without S
/// and with Rd other than R15, from Rn's value `a`, the shifter operand `b`
/// and the carry flag `c`: AND `a & b`, EOR `a ^ b`, SUB `a - b`, RSB
/// `b - a`, ADD `a + b`, ADC `a + b + c`, SBC `a - b - 1 + c`, RSC
/// `b - a - 1 + c` (all modulo 2^32), ORR `a | b`, MOV `b`, BIC `a & !b`
/// and MVN `!b`. Only Rd changes: every other register and the CPSR stay.
#[verifier::rlimit(40)]
pub proof fn lemma_data_processing_results(s: CpuView, opcode: u32, fetch_pc: u32)
    requires
        s.valid(),
        !bit_of(opcode, 20),
        reg_field(opcode, 12) != PC,
        !(8 <= (opcode >> 21) & 0xf <= 0xb),
    ensures
        ({
            let op = (opcode >> 21) & 0xf;
            let rd = reg_field(opcode, 12);
            let register_shift = !bit_of(opcode, 25) && bit_of(opcode, 4);
            let a = dp_reg_spec(s, reg_field(opcode, 16), fetch_pc, register_shift) as int;
            let b = operand2_spec(s, opcode, fetch_pc, register_shift).value as int;
            let c: int = if bit_of(s.cpsr, 29) { 1 } else { 0 };
            let m = 0x1_0000_0000int;
            let (t, wrote) = data_processing_spec(s, opcode, fetch_pc);
            &&& !wrote
            &&& t.cpsr == s.cpsr
            &&& forall|r: u8| r < 16 && r != rd ==> #[trigger] t.reg(r) == s.reg(r)
            &&& op == 0x0 ==> t.reg(rd) == a as u32 & b as u32
            &&& op == 0x1 ==> t.reg(rd) == a as u32 ^ b as u32
            &&& op == 0x2 ==> t.reg(rd) == (a - b) % m
            &&& op == 0x3 ==> t.reg(rd) == (b - a) % m
            &&& op == 0x4 ==> t.reg(rd) == (a + b) % m
            &&& op == 0x5 ==> t.reg(rd) == (a + b + c) % m
            &&& op == 0x6 ==> t.reg(rd) == (a - b - 1 + c) % m
            &&& op == 0x7 ==> t.reg(rd) == (b - a - 1 + c) % m
            &&& op == 0xc ==> t.reg(rd) == a as u32 | b as u32
            &&& op == 0xd ==> t.reg(rd) == b
            &&& op == 0xe ==> t.reg(rd) == a as u32 & !(b as u32)
            &&& op == 0xf ==> t.reg(rd) == !(b as u32)
        }),
{
    let op = (opcode >> 21) & 0xf;
    let rd = reg_field(opcode, 12);
    lemma_reg_field(opcode, 12);
    let register_shift = !bit_of(opcode, 25) && bit_of(opcode, 4);
    let op2 = operand2_spec(s, opcode, fetch_pc, register_shift);
    let a = dp_reg_spec(s, reg_field(opcode, 16), fetch_pc, register_shift);
    let b = op2.value;
    let cf = bit_of(s.cpsr, 29);
    lemma_adc_forms(a, b, cf);
    let v: u32 = if op == 0x0 {
        a & b
    } else if op == 0x1 {
        a ^ b
    } else if op == 0x2 {
        add_with_carry_spec(a, !b, true).value
    } else if op == 0x3 {
        add_with_carry_spec(b, !a, true).value
    } else if op == 0x4 {
        add_with_carry_spec(a, b, false).value
    } else if op == 0x5 {
        add_with_carry_spec(a, b, cf).value
    } else if op == 0x6 {
        add_with_carry_spec(a, !b, cf).value
    } else if op == 0x7 {
        add_with_carry_spec(b, !a, cf).value
    } else if op == 0xc {
        a | b
    } else if op == 0xd {
        b
    } else if op == 0xe {
        a & !b
    } else {
        !b
    };
    assert(data_processing_spec(s, opcode, fetch_pc) == (s.with_reg(rd, v), false));
    lemma_with_reg_effect(s, rd, v);
}

/// The flags of the data-processing instructions with S set and Rd other
/// than R15, from Rn's value `a` and the shifter operand `b` (with its
/// carry): N and Z describe the result (for TST, TEQ, CMP and CMN, the value
/// they compute and discard); logical operations take C from the shifter;
/// ADD and CMN set C when `a + b` reaches 2^32, SUB and CMP when `a >= b`,
/// RSB when `b >= a`. TST, TEQ, CMP and CMN change no register.
#[verifier::rlimit(60)]
pub proof fn lemma_data_processing_flags(s: CpuView, opcode: u32, fetch_pc: u32)
    requires
        s.valid(),
        bit_of(opcode, 20),
        reg_field(opcode, 12) != PC,
    ensures
        ({
            let op = (opcode >> 21) & 0xf;
            let register_shift = !bit_of(opcode, 25) && bit_of(opcode, 4);
            let op2 = operand2_spec(s, opcode, fetch_pc, register_shift);
            let a = dp_reg_spec(s, reg_field(opcode, 16), fetch_pc, register_shift);
            let b = op2.value;
            let c: int = if bit_of(s.cpsr, 29) { 1 } else { 0 };
            let m = 0x1_0000_0000int;
            let r: u32 = if op == 0x0 || op == 0x8 {
                a & b
            } else if op == 0x1 || op == 0x9 {
                a ^ b
            } else if op == 0x2 || op == 0xa {
                ((a - b) % m) as u32
            } else if op == 0x3 {
                ((b - a) % m) as u32
            } else if op == 0x4 || op == 0xb {
                ((a + b) % m) as u32
            } else if op == 0x5 {
                ((a + b + c) % m) as u32
            } else if op == 0x6 {
                ((a - b - 1 + c) % m) as u32
            } else if op == 0x7 {
                ((b - a - 1 + c) % m) as u32
            } else if op == 0xc {
                a | b
            } else if op == 0xd {
                b
            } else if op == 0xe {
                a & !b
            } else {
                !b
            };
            let t = data_processing_spec(s, opcode, fetch_pc).0;
            &&& bit_of(t.cpsr, 31) == bit_of(r, 31)
            &&& bit_of(t.cpsr, 30) == (r == 0)
            &&& (op == 0x0 || op == 0x1 || op == 0x8 || op == 0x9 || op >= 0xc) ==> bit_of(t.cpsr, 29)
                == op2.carry_out
            &&& (op == 0x2 || op == 0xa) ==> bit_of(t.cpsr, 29) == (a >= b)
            &&& op == 0x3 ==> bit_of(t.cpsr, 29) == (b >= a)
            &&& (op == 0x4 || op == 0xb) ==> bit_of(t.cpsr, 29) == (a + b >= m)
            &&& (0x8 <= op <= 0xb) ==> t.regs == s.regs
        }),
{
    let op = (opcode >> 21) & 0xf;
    let rd = reg_field(opcode, 12);
    lemma_reg_field(opcode, 12);
    let register_shift = !bit_of(opcode, 25) && bit_of(opcode, 4);
    let op2 = operand2_spec(s, opcode, fetch_pc, register_shift);
    let a = dp_reg_spec(s, reg_field(opcode, 16), fetch_pc, register_shift);
    let b = op2.value;
    let cf = bit_of(s.cpsr, 29);
    lemma_adc_forms(a, b, cf);
    crate::arm7tdmi::alu::lemma_subtract_via_add_with_carry(a, b);
    crate::arm7tdmi::alu::lemma_subtract_via_add_with_carry(b, a);
    let x = if op == 0x2 || op == 0xa {
        add_with_carry_spec(a, !b, true)
    } else if op == 0x3 {
        add_with_carry_spec(b, !a, true)
    } else if op == 0x4 || op == 0xb {
        add_with_carry_spec(a, b, false)
    } else if op == 0x5 {
        add_with_carry_spec(a, b, cf)
    } else if op == 0x6 {
        add_with_carry_spec(a, !b, cf)
    } else {
        add_with_carry_spec(b, !a, cf)
    };
    crate::arm7tdmi::psr::lemma_flag_bits(s.cpsr, x.value, x.carry_out, x.overflow);
    let lv: u32 = if op == 0x0 || op == 0x8 {
        a & b
    } else if op == 0x1 || op == 0x9 {
        a ^ b
    } else if op == 0xc {
        a | b
    } else if op == 0xd {
        b
    } else if op == 0xe {
        a & !b
    } else {
        !b
    };
    crate::arm7tdmi::psr::lemma_flag_bits(s.cpsr, lv, op2.carry_out, false);
    let w = s.with_reg(rd, if (0x2 <= op <= 0x7) { x.value } else { lv });
    assert(w.cpsr == s.cpsr);
}

/// The sums the arithmetic instructions form through the adder, in plain
/// arithmetic modulo 2^32.
proof fn lemma_adc_forms(a: u32, b: u32, cf: bool)
    ensures
        ({
            let c: int = if cf { 1 } else { 0 };
            let m = 0x1_0000_0000int;
            &&& add_with_carry_spec(a, !b, true).value == (a - b) % m
            &&& add_with_carry_spec(b, !a, true).value == (b - a) % m
            &&& add_with_carry_spec(a, b, false).value == (a + b) % m
            &&& add_with_carry_spec(a, b, cf).value == (a + b + c) % m
            &&& add_with_carry_spec(a, !b, cf).value == (a - b - 1 + c) % m
            &&& add_with_carry_spec(b, !a, cf).value == (b - a - 1 + c) % m
        }),
{
    crate::arm7tdmi::alu::lemma_not_is_complement(a);
    crate::arm7tdmi::alu::lemma_not_is_complement(b);
}

/// Writing register `rd` (other than R15) changes that register only.
pub proof fn lemma_with_reg_effect(s: CpuView, rd: u8, v: u32)
    requires
        s.valid(),
        rd < 16,
    ensures
        s.with_reg(rd, v).reg(rd) == v,
        s.with_reg(rd, v).cpsr == s.cpsr,
        forall|r: u8| r < 16 && r != rd ==> #[trigger] s.with_reg(rd, v).reg(r) == s.reg(r),
{
    let t = s.with_reg(rd, v);
    assert(t.mode() == s.mode());
    crate::arm7tdmi::reg::lemma_reg_slot_in_range(s.mode(), rd);
    assert forall|r: u8| r < 16 && r != rd implies #[trigger] t.reg(r) == s.reg(r) by {
        crate::arm7tdmi::reg::lemma_reg_slot_distinct(s.mode(), r, rd);
        crate::arm7tdmi::reg::lemma_reg_slot_in_range(s.mode(), r);
    }
}

/// Executes a data-processing instruction (one cycle).
pub fn execute(cpu: &mut Arm7tdmi, opcode: u32, fetch_pc: u32) -> (r: ExecutionResult)
    requires
        old(cpu)@.valid(),
    ensures
        final(cpu)@.valid(),
        (final(cpu)@, r.wrote_pc) == data_processing_spec(old(cpu)@, opcode, fetch_pc),
        r.cycles == 1,
{
    let op = (opcode >> 21) & 0xf;
    let set_flags = opcode_bit(opcode, 20);
    let rn = reg_at(opcode, 16);
    let rd = reg_at(opcode, 12);
    let register_shift = !opcode_bit(opcode, 25) && opcode_bit(opcode, 4);

    let operand2 = decode_operand2(cpu, opcode, fetch_pc, register_shift);
    let rn_value = read_data_proc_reg(cpu, rn, fetch_pc, register_shift);
    let c = cpu.cpsr().carry();

    let wrote_pc = if op == 0x0 {
        write_result(cpu, rd, rn_value & operand2.value, set_flags, operand2.carry_out)
    } else if op == 0x1 {
        write_result(cpu, rd, rn_value ^ operand2.value, set_flags, operand2.carry_out)
    } else if op == 0x2 {
        write_arithmetic_result(cpu, rd, add_with_carry(rn_value, !operand2.value, true), set_flags)
    } else if op == 0x3 {
        write_arithmetic_result(cpu, rd, add_with_carry(operand2.value, !rn_value, true), set_flags)
    } else if op == 0x4 {
        write_arithmetic_result(cpu, rd, add_with_carry(rn_value, operand2.value, false), set_flags)
    } else if op == 0x5 {
        write_arithmetic_result(cpu, rd, add_with_carry(rn_value, operand2.value, c), set_flags)
    } else if op == 0x6 {
        write_arithmetic_result(cpu, rd, add_with_carry(rn_value, !operand2.value, c), set_flags)
    } else if op == 0x7 {
        write_arithmetic_result(cpu, rd, add_with_carry(operand2.value, !rn_value, c), set_flags)
    } else if op == 0x8 {
        update_test_flags(cpu, rd, rn_value & operand2.value, operand2.carry_out);
        false
    } else if op == 0x9 {
        update_test_flags(cpu, rd, rn_value ^ operand2.value, operand2.carry_out);
        false
    } else if op == 0xa {
        update_compare_flags(cpu, rd, add_with_carry(rn_value, !operand2.value, true));
        false
    } else if op == 0xb {
        update_compare_flags(cpu, rd, add_with_carry(rn_value, operand2.value, false));
        false
    } else if op == 0xc {
        write_result(cpu, rd, rn_value | operand2.value, set_flags, operand2.carry_out)
    } else if op == 0xd {
        write_result(cpu, rd, operand2.value, set_flags, operand2.carry_out)
    } else if op == 0xe {
        write_result(cpu, rd, rn_value & !operand2.value, set_flags, operand2.carry_out)
    } else {
        write_result(cpu, rd, !operand2.value, set_flags, operand2.carry_out)
    };

    ExecutionResult { cycles: 1, wrote_pc }
}

fn decode_operand2(cpu: &Arm7tdmi, opcode: u32, fetch_pc: u32, register_shift: bool) -> (r:
    ShiftResult)
    requires
        cpu@.valid(),
    ensures
        r == operand2_spec(cpu@, opcode, fetch_pc, register_shift),
{
    let carry = cpu.cpsr().carry();
    if opcode_bit(opcode, 25) {
        let imm8 = opcode & 0xff;
        assert(((opcode >> 8) & 0xf) < 16) by (bit_vector);
        let rotate = ((opcode >> 8) & 0xf) * 2;
        let value = if rotate == 0 {
            imm8
        } else {
            rotate_right(imm8, rotate)
        };
        let carry_out = if rotate == 0 {
            carry
        } else {
            assert(((value >> 31) != 0) == ((value >> 31) & 1 == 1)) by (bit_vector);
            (value >> 31) != 0
        };
        ShiftResult { value, carry_out }
    } else {
        let rm = reg_at(opcode, 0);
        let value = read_data_proc_reg(cpu, rm, fetch_pc, register_shift);
        let kind = shift_kind((opcode >> 5) & 0x3);
        if opcode_bit(opcode, 4) {
            let rs = reg_at(opcode, 8);
            let amount = (read_data_proc_reg(cpu, rs, fetch_pc, register_shift) & 0xff) as u8;
            shift_register(kind, value, amount, carry)
        } else {
            let amount = ((opcode >> 7) & 0x1f) as u8;
            shift_immediate(kind, value, amount, carry)
        }
    }
}

fn read_data_proc_reg(cpu: &Arm7tdmi, reg: u8, fetch_pc: u32, register_shift: bool) -> (r: u32)
    requires
        cpu@.valid(),
        reg < 16,
    ensures
        r == dp_reg_spec(cpu@, reg, fetch_pc, register_shift),
{
    if reg == PC && register_shift {
        fetch_pc.wrapping_add(12)
    } else {
        read_exec_reg(cpu, reg, fetch_pc)
    }
}

fn restore_cpsr(cpu: &mut Arm7tdmi)
    requires
        old(cpu)@.valid(),
    ensures
        final(cpu)@ == old(cpu)@.restore_cpsr(),
        final(cpu)@.valid(),
{
    let mode = cpu.mode();
    if let Some(saved) = cpu.spsr(mode) {
        cpu.set_cpsr(saved);
    }
}

fn write_result(cpu: &mut Arm7tdmi, rd: u8, value: u32, set_flags: bool, carry_out: bool) -> (r:
    bool)
    requires
        old(cpu)@.valid(),
        rd < 16,
    ensures
        (final(cpu)@, r) == write_result_spec(old(cpu)@, rd, value, set_flags, carry_out),
        final(cpu)@.valid(),
{
    let wrote_pc = write_exec_reg(cpu, rd, value);
    if set_flags {
        if rd == PC {
            restore_cpsr(cpu);
        } else {
            update_logical_flags(cpu, value, carry_out);
        }
    }
    wrote_pc
}

fn write_arithmetic_result(cpu: &mut Arm7tdmi, rd: u8, result: ArithmeticResult, set_flags: bool) -> (r:
    bool)
    requires
        old(cpu)@.valid(),
        rd < 16,
    ensures
        (final(cpu)@, r) == write_arithmetic_spec(old(cpu)@, rd, result, set_flags),
        final(cpu)@.valid(),
{
    let wrote_pc = write_exec_reg(cpu, rd, result.value);
    if set_flags {
        if rd == PC {
            restore_cpsr(cpu);
        } else {
            let flags = with_arithmetic_flags(cpu.cpsr(), result);
            cpu.set_cpsr(flags);
        }
    }
    wrote_pc
}

fn update_logical_flags(cpu: &mut Arm7tdmi, value: u32, carry_out: bool)
    requires
        old(cpu)@.valid(),
    ensures
        final(cpu)@ == old(cpu)@.with_cpsr(logical_flags(old(cpu)@.cpsr, value, carry_out)),
        final(cpu)@.valid(),
{
    let mut cpsr = cpu.cpsr();
    cpsr.set_nz(value);
    cpsr.set_carry(carry_out);
    proof {
        lemma_flags_keep_mode(old(cpu)@.cpsr, value, carry_out, false);
    }
    cpu.set_cpsr(cpsr);
}

fn update_test_flags(cpu: &mut Arm7tdmi, rd: u8, value: u32, carry_out: bool)
    requires
        old(cpu)@.valid(),
    ensures
        final(cpu)@ == test_flags_spec(old(cpu)@, rd, value, carry_out),
        final(cpu)@.valid(),
{
    if rd == PC {
        restore_cpsr(cpu);
    } else {
        update_logical_flags(cpu, value, carry_out);
    }
}

fn update_compare_flags(cpu: &mut Arm7tdmi, rd: u8, result: ArithmeticResult)
    requires
        old(cpu)@.valid(),
    ensures
        final(cpu)@ == compare_flags_spec(old(cpu)@, rd, result),
        final(cpu)@.valid(),
{
    if rd == PC {
        restore_cpsr(cpu);
    } else {
        let flags = with_arithmetic_flags(cpu.cpsr(), result);
        cpu.set_cpsr(flags);
    }
}

fn with_arithmetic_flags(cpsr: crate::arm7tdmi::Psr, result: ArithmeticResult) -> (r:
    crate::arm7tdmi::Psr)
    ensures
        r@ == with_nzcv(cpsr@, result.value, result.carry_out, result.overflow),
        r.valid() == cpsr.valid(),
{
    let mut out = cpsr;
    out.set_nzcv(result.value, result.carry_out, result.overflow);
    proof {
        lemma_flags_keep_mode(cpsr@, result.value, result.carry_out, result.overflow);
    }
    out
}

} // verus!
