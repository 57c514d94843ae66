//! Thumb formats 1-5: shifts, add/subtract, immediate operations, ALU
//! operations and high-register operations with BX.
use vstd::prelude::*;
use crate::arm7tdmi::alu::{
    add_with_carry, add_with_carry_spec, shift_immediate, shift_immediate_spec, shift_register,
    shift_register_spec, ArithmeticResult, ShiftKind,
};
use crate::arm7tdmi::arm::data_proc::{logical_flags, shift_kind, shift_kind_spec};
use crate::arm7tdmi::arm::{branch_spec, ExecutionResult};
use crate::arm7tdmi::psr::{bit_of, lemma_flags_keep_mode, with_nz, with_nzcv};
use crate::arm7tdmi::thumb::{
    branch_to, exec_reg_spec, low_reg, low_reg_at, read_exec_reg, tbit, thumb_bit, write_exec_reg,
    write_exec_spec,
};
use crate::arm7tdmi::{Arm7tdmi, CpuView};

verus! {

pub open spec fn is_alu_spec(opcode: u16) -> bool {
    opcode & 0xe000 == 0x0000 || opcode & 0xe000 == 0x2000 || opcode & 0xfc00 == 0x4000 || opcode
        & 0xfc00 == 0x4400
}

pub fn is_alu(opcode: u16) -> (r: bool)
    ensures
        r == is_alu_spec(opcode),
{
    (opcode & 0xe000) == 0x0000 || (opcode & 0xe000) == 0x2000 || (opcode & 0xfc00) == 0x4000 || (
    opcode & 0xfc00) == 0x4400
}

/// Flags after a logical result: N and Z, and C when the shifter produced one.
pub open spec fn logical_result(s: CpuView, value: u32, carry: Option<bool>) -> CpuView {
    match carry {
        Some(c) => s.with_cpsr(logical_flags(s.cpsr, value, c)),
        None => s.with_cpsr(with_nz(s.cpsr, value)),
    }
}

/// Flags after an arithmetic result: N, Z, C and V.
pub open spec fn arithmetic_result(s: CpuView, result: ArithmeticResult) -> CpuView {
    s.with_cpsr(with_nzcv(s.cpsr, result.value, result.carry_out, result.overflow))
}

/// Format 1: LSL/LSR/ASR by an immediate into Rd, setting N, Z and C.
pub open spec fn shift_immediate_format_spec(s: CpuView, opcode: u16) -> CpuView {
    let result = shift_immediate_spec(
        shift_kind_spec(((opcode as u32) >> 11u32) & 0x3),
        s.reg(low_reg(opcode, 3)),
        (((opcode as u32) >> 6u32) & 0x1f) as u8,
        bit_of(s.cpsr, 29),
    );
    logical_result(s.with_reg(low_reg(opcode, 0), result.value), result.value, Some(result.carry_out))
}

/// Format 2: ADD/SUB of a register or a 3-bit immediate, setting NZCV.
pub open spec fn add_sub_spec(s: CpuView, opcode: u16) -> CpuView {
    let operand = low_reg(opcode, 6);
    let lhs = s.reg(low_reg(opcode, 3));
    let rhs = if tbit(opcode, 10) {
        operand as u32
    } else {
        s.reg(operand)
    };
    let result = if tbit(opcode, 9) {
        add_with_carry_spec(lhs, !rhs, true)
    } else {
        add_with_carry_spec(lhs, rhs, false)
    };
    arithmetic_result(s.with_reg(low_reg(opcode, 0), result.value), result)
}

/// Format 3: MOV/CMP/ADD/SUB with an 8-bit immediate.
pub open spec fn immediate_spec(s: CpuView, opcode: u16) -> CpuView {
    let op = ((opcode as u32) >> 11u32) & 0x3;
    let rd = low_reg(opcode, 8);
    let imm = (opcode & 0xff) as u32;
    if op == 0 {
        logical_result(s.with_reg(rd, imm), imm, None)
    } else if op == 1 {
        arithmetic_result(s, add_with_carry_spec(s.reg(rd), !imm, true))
    } else if op == 2 {
        let result = add_with_carry_spec(s.reg(rd), imm, false);
        arithmetic_result(s.with_reg(rd, result.value), result)
    } else {
        let result = add_with_carry_spec(s.reg(rd), !imm, true);
        arithmetic_result(s.with_reg(rd, result.value), result)
    }
}

/// Format 4: the sixteen register-to-register ALU operations.
pub open spec fn alu_op_spec(s: CpuView, opcode: u16) -> CpuView {
    let op = ((opcode as u32) >> 6u32) & 0xf;
    let rd = low_reg(opcode, 0);
    let lhs = s.reg(rd);
    let rhs = s.reg(low_reg(opcode, 3));
    let c = bit_of(s.cpsr, 29);
    let amount = (rhs & 0xff) as u8;
    if op == 0x0 {
        logical_result(s.with_reg(rd, lhs & rhs), lhs & rhs, None)
    } else if op == 0x1 {
        logical_result(s.with_reg(rd, lhs ^ rhs), lhs ^ rhs, None)
    } else if op == 0x2 || op == 0x3 || op == 0x4 || op == 0x7 {
        let kind = if op == 0x2 {
            ShiftKind::Lsl
        } else if op == 0x3 {
            ShiftKind::Lsr
        } else if op == 0x4 {
            ShiftKind::Asr
        } else {
            ShiftKind::Ror
        };
        let result = shift_register_spec(kind, lhs, amount, c);
        logical_result(s.with_reg(rd, result.value), result.value, Some(result.carry_out))
    } else if op == 0x5 {
        let result = add_with_carry_spec(lhs, rhs, c);
        arithmetic_result(s.with_reg(rd, result.value), result)
    } else if op == 0x6 {
        let result = add_with_carry_spec(lhs, !rhs, c);
        arithmetic_result(s.with_reg(rd, result.value), result)
    } else if op == 0x8 {
        logical_result(s, lhs & rhs, None)
    } else if op == 0x9 {
        let result = add_with_carry_spec(0, !rhs, true);
        arithmetic_result(s.with_reg(rd, result.value), result)
    } else if op == 0xa {
        arithmetic_result(s, add_with_carry_spec(lhs, !rhs, true))
    } else if op == 0xb {
        arithmetic_result(s, add_with_carry_spec(lhs, rhs, false))
    } else if op == 0xc {
        logical_result(s.with_reg(rd, lhs | rhs), lhs | rhs, None)
    } else if op == 0xd {
        let value = ((lhs as int * rhs as int) % 0x1_0000_0000) as u32;
        logical_result(s.with_reg(rd, value), value, None)
    } else if op == 0xe {
        logical_result(s.with_reg(rd, lhs & !rhs), lhs & !rhs, None)
    } else {
        logical_result(s.with_reg(rd, !rhs), !rhs, None)
    }
}

/// What the Thumb register-to-register ALU operations compute, from Rd's
/// value `a`, Rs's value `b` and the carry flag `c`: AND `a & b`, EOR
/// `a ^ b`, ADC `a + b + c`, SBC `a - b - 1 + c`, NEG `0 - b` (all modulo
/// 2^32), ORR `a | b`, MUL `a * b` modulo 2^32, BIC `a & !b` and MVN `!b`
/// land in Rd, and N and Z then describe the result (N its bit 31, Z
/// whether it is zero); LSL, LSR, ASR and ROR shift `a` by the low byte of
/// `b` through the barrel shifter's register forms, C taking the bit it
/// carries out; TST, CMP and CMN change no register. No register but Rd
/// ever changes.
#[verifier::spinoff_prover]
#[verifier::rlimit(40)]
pub proof fn lemma_alu_op_results(s: CpuView, opcode: u16)
    requires
        s.valid(),
    ensures
        ({
            let op = ((opcode as u32) >> 6u32) & 0xf;
            let rd = low_reg(opcode, 0);
            let a = s.reg(rd) as int;
            let b = s.reg(low_reg(opcode, 3)) as int;
            let c: int = if bit_of(s.cpsr, 29) { 1 } else { 0 };
            let m = 0x1_0000_0000int;
            let t = alu_op_spec(s, opcode);
            let v = t.reg(rd);
            &&& forall|r: u8| r < 16 && r != rd ==> #[trigger] t.reg(r) == s.reg(r)
            &&& (op == 0x8 || op == 0xa || op == 0xb) ==> v == a
            &&& op == 0x0 ==> v == a as u32 & b as u32
            &&& op == 0x1 ==> v == a as u32 ^ b as u32
            &&& op == 0x5 ==> v == (a + b + c) % m
            &&& op == 0x6 ==> v == (a - b - 1 + c) % m
            &&& op == 0x9 ==> v == (0 - b) % m
            &&& op == 0xc ==> v == a as u32 | b as u32
            &&& op == 0xd ==> v == (a * b) % m
            &&& op == 0xe ==> v == a as u32 & !(b as u32)
            &&& op == 0xf ==> v == !(b as u32)
            &&& op == 0x2 ==> v == shift_register_spec(ShiftKind::Lsl, a as u32, (b as u32 & 0xff) as u8, bit_of(s.cpsr, 29)).value
                && bit_of(t.cpsr, 29) == shift_register_spec(ShiftKind::Lsl, a as u32, (b as u32 & 0xff) as u8, bit_of(s.cpsr, 29)).carry_out
            &&& op == 0x3 ==> v == shift_register_spec(ShiftKind::Lsr, a as u32, (b as u32 & 0xff) as u8, bit_of(s.cpsr, 29)).value
                && bit_of(t.cpsr, 29) == shift_register_spec(ShiftKind::Lsr, a as u32, (b as u32 & 0xff) as u8, bit_of(s.cpsr, 29)).carry_out
            &&& op == 0x4 ==> v == shift_register_spec(ShiftKind::Asr, a as u32, (b as u32 & 0xff) as u8, bit_of(s.cpsr, 29)).value
                && bit_of(t.cpsr, 29) == shift_register_spec(ShiftKind::Asr, a as u32, (b as u32 & 0xff) as u8, bit_of(s.cpsr, 29)).carry_out
            &&& op == 0x7 ==> v == shift_register_spec(ShiftKind::Ror, a as u32, (b as u32 & 0xff) as u8, bit_of(s.cpsr, 29)).value
                && bit_of(t.cpsr, 29) == shift_register_spec(ShiftKind::Ror, a as u32, (b as u32 & 0xff) as u8, bit_of(s.cpsr, 29)).carry_out
            &&& !(op == 0x8 || op == 0xa || op == 0xb) ==> bit_of(t.cpsr, 31) == bit_of(v, 31) && bit_of(
                t.cpsr,
                30,
            ) == (v == 0)
        }),
{
    let op = ((opcode as u32) >> 6u32) & 0xf;
    let rd = low_reg(opcode, 0);
    let rs = low_reg(opcode, 3);
    assert(rd < 8 && rs < 8) by {
        crate::arm7tdmi::arm::lemma_reg_field(opcode as u32, 0);
        crate::arm7tdmi::arm::lemma_reg_field(opcode as u32, 3);
    }
    let lhs = s.reg(rd);
    let rhs = s.reg(rs);
    let cf = bit_of(s.cpsr, 29);
    let amount = (rhs & 0xff) as u8;
    crate::arm7tdmi::alu::lemma_not_is_complement(rhs);
    let t = alu_op_spec(s, opcode);
    if op == 0x8 || op == 0xa || op == 0xb {
        assert(t.regs == s.regs && t.mode() == s.mode()) by {
            lemma_flags_keep_mode(s.cpsr, lhs & rhs, false, false);
            lemma_flags_keep_mode(s.cpsr, add_with_carry_spec(lhs, !rhs, true).value, add_with_carry_spec(lhs, !rhs, true).carry_out, add_with_carry_spec(lhs, !rhs, true).overflow);
            lemma_flags_keep_mode(s.cpsr, add_with_carry_spec(lhs, rhs, false).value, add_with_carry_spec(lhs, rhs, false).carry_out, add_with_carry_spec(lhs, rhs, false).overflow);
        }
    } else {
        let r = if op == 0x0 {
            lhs & rhs
        } else if op == 0x1 {
            lhs ^ rhs
        } else if op == 0x2 || op == 0x3 || op == 0x4 || op == 0x7 {
            let kind = if op == 0x2 {
                ShiftKind::Lsl
            } else if op == 0x3 {
                ShiftKind::Lsr
            } else if op == 0x4 {
                ShiftKind::Asr
            } else {
                ShiftKind::Ror
            };
            shift_register_spec(kind, lhs, amount, cf).value
        } else if op == 0x5 {
            add_with_carry_spec(lhs, rhs, cf).value
        } else if op == 0x6 {
            add_with_carry_spec(lhs, !rhs, cf).value
        } else if op == 0x9 {
            add_with_carry_spec(0, !rhs, true).value
        } else if op == 0xc {
            lhs | rhs
        } else if op == 0xd {
            ((lhs as int * rhs as int) % 0x1_0000_0000) as u32
        } else if op == 0xe {
            lhs & !rhs
        } else {
            !rhs
        };
        let w = s.with_reg(rd, r);
        crate::arm7tdmi::arm::data_proc::lemma_with_reg_effect(s, rd, r);
        crate::arm7tdmi::psr::lemma_flag_bits(s.cpsr, r, false, false);
        assert(t.regs == w.regs);
        lemma_flags_keep_mode(s.cpsr, r, false, false);
        assert(t.mode() == s.mode() && bit_of(t.cpsr, 31) == bit_of(r, 31) && bit_of(t.cpsr, 30) == (r == 0)) by {
            if op == 0x2 || op == 0x3 || op == 0x4 || op == 0x7 {
                let kind = if op == 0x2 {
                    ShiftKind::Lsl
                } else if op == 0x3 {
                    ShiftKind::Lsr
                } else if op == 0x4 {
                    ShiftKind::Asr
                } else {
                    ShiftKind::Ror
                };
                crate::arm7tdmi::psr::lemma_flag_bits(s.cpsr, r, shift_register_spec(kind, lhs, amount, cf).carry_out, false);
                lemma_flags_keep_mode(s.cpsr, r, shift_register_spec(kind, lhs, amount, cf).carry_out, false);
            } else if op == 0x5 {
                let x = add_with_carry_spec(lhs, rhs, cf);
                crate::arm7tdmi::psr::lemma_flag_bits(s.cpsr, r, x.carry_out, x.overflow);
                lemma_flags_keep_mode(s.cpsr, r, x.carry_out, x.overflow);
            } else if op == 0x6 {
                let x = add_with_carry_spec(lhs, !rhs, cf);
                crate::arm7tdmi::psr::lemma_flag_bits(s.cpsr, r, x.carry_out, x.overflow);
                lemma_flags_keep_mode(s.cpsr, r, x.carry_out, x.overflow);
            } else if op == 0x9 {
                let x = add_with_carry_spec(0, !rhs, true);
                crate::arm7tdmi::psr::lemma_flag_bits(s.cpsr, r, x.carry_out, x.overflow);
                lemma_flags_keep_mode(s.cpsr, r, x.carry_out, x.overflow);
            }
        }
        if op == 0x2 || op == 0x3 || op == 0x4 || op == 0x7 {
            let kind = if op == 0x2 {
                ShiftKind::Lsl
            } else if op == 0x3 {
                ShiftKind::Lsr
            } else if op == 0x4 {
                ShiftKind::Asr
            } else {
                ShiftKind::Ror
            };
            crate::arm7tdmi::psr::lemma_flag_bits(s.cpsr, r, shift_register_spec(kind, lhs, amount, cf).carry_out, false);
        }
    }
}

/// Formats 2 and 3, the register and immediate adds and subtracts: ADD
/// puts `a + b` and SUB `a - b` (modulo 2^32) in Rd, MOV puts the immediate
/// there, CMP changes no register; N and Z describe the result, and C is the
/// unsigned carry of an add (`a + b` reaching 2^32) or, for a subtract or
/// compare, whether no borrow occurred (`a >= b`). No register but Rd changes.
#[verifier::rlimit(40)]
pub proof fn lemma_add_sub_results(s: CpuView, opcode: u16)
    requires
        s.valid(),
    ensures
        ({
            let rd = low_reg(opcode, 0);
            let a = s.reg(low_reg(opcode, 3));
            let operand = low_reg(opcode, 6);
            let b = if tbit(opcode, 10) {
                operand as u32
            } else {
                s.reg(operand)
            };
            let t = add_sub_spec(s, opcode);
            let v = t.reg(rd);
            let m = 0x1_0000_0000int;
            &&& forall|r: u8| r < 16 && r != rd ==> #[trigger] t.reg(r) == s.reg(r)
            &&& !tbit(opcode, 9) ==> v == (a + b) % m && bit_of(t.cpsr, 29) == (a + b >= m)
            &&& tbit(opcode, 9) ==> v == (a - b) % m && bit_of(t.cpsr, 29) == (a >= b)
            &&& bit_of(t.cpsr, 31) == bit_of(v, 31) && bit_of(t.cpsr, 30) == (v == 0)
        }),
        ({
            let op = ((opcode as u32) >> 11u32) & 0x3;
            let rd = low_reg(opcode, 8);
            let a = s.reg(rd);
            let b = (opcode & 0xff) as u32;
            let t = immediate_spec(s, opcode);
            let m = 0x1_0000_0000int;
            let v: int = if op == 0 {
                b as int
            } else if op == 1 {
                (a - b) % m
            } else if op == 2 {
                (a + b) % m
            } else {
                (a - b) % m
            };
            &&& forall|r: u8| r < 16 && r != rd ==> #[trigger] t.reg(r) == s.reg(r)
            &&& t.reg(rd) == if op == 1 {
                a as int
            } else {
                v
            }
            &&& bit_of(t.cpsr, 31) == bit_of(v as u32, 31) && bit_of(t.cpsr, 30) == (v == 0)
            &&& (op == 1 || op == 3) ==> bit_of(t.cpsr, 29) == (a >= b)
            &&& op == 2 ==> bit_of(t.cpsr, 29) == (a + b >= m)
        }),
{
    crate::arm7tdmi::arm::lemma_reg_field(opcode as u32, 0);
    crate::arm7tdmi::arm::lemma_reg_field(opcode as u32, 3);
    crate::arm7tdmi::arm::lemma_reg_field(opcode as u32, 6);
    crate::arm7tdmi::arm::lemma_reg_field(opcode as u32, 8);
    // format 2
    let rd = low_reg(opcode, 0);
    let a = s.reg(low_reg(opcode, 3));
    let operand = low_reg(opcode, 6);
    let b = if tbit(opcode, 10) {
        operand as u32
    } else {
        s.reg(operand)
    };
    let x = if tbit(opcode, 9) {
        add_with_carry_spec(a, !b, true)
    } else {
        add_with_carry_spec(a, b, false)
    };
    crate::arm7tdmi::alu::lemma_subtract_via_add_with_carry(a, b);
    crate::arm7tdmi::arm::data_proc::lemma_with_reg_effect(s, rd, x.value);
    crate::arm7tdmi::psr::lemma_flag_bits(s.cpsr, x.value, x.carry_out, x.overflow);
    lemma_flags_keep_mode(s.cpsr, x.value, x.carry_out, x.overflow);
    let t = add_sub_spec(s, opcode);
    assert(t.mode() == s.mode());
    assert forall|r: u8| r < 16 && r != rd implies #[trigger] t.reg(r) == s.reg(r) by {
        assert(s.with_reg(rd, x.value).reg(r) == s.reg(r));
    }
    // format 3
    let op = ((opcode as u32) >> 11u32) & 0x3;
    let rd3 = low_reg(opcode, 8);
    let a3 = s.reg(rd3);
    let b3 = (opcode & 0xff) as u32;
    crate::arm7tdmi::alu::lemma_subtract_via_add_with_carry(a3, b3);
    let y = if op == 0 {
        ArithmeticResult { value: b3, carry_out: false, overflow: false }
    } else if op == 2 {
        add_with_carry_spec(a3, b3, false)
    } else {
        add_with_carry_spec(a3, !b3, true)
    };
    crate::arm7tdmi::arm::data_proc::lemma_with_reg_effect(s, rd3, y.value);
    crate::arm7tdmi::psr::lemma_flag_bits(s.cpsr, y.value, y.carry_out, y.overflow);
    lemma_flags_keep_mode(s.cpsr, y.value, y.carry_out, y.overflow);
    let t3 = immediate_spec(s, opcode);
    assert(t3.mode() == s.mode());
    assert forall|r: u8| r < 16 && r != rd3 implies #[trigger] t3.reg(r) == s.reg(r) by {
        assert(s.with_reg(rd3, y.value).reg(r) == s.reg(r));
    }
}

/// Format 5: ADD/CMP/MOV on any registers, and BX.
pub open spec fn high_reg_spec(s: CpuView, opcode: u16, fetch_pc: u32) -> (CpuView, ExecutionResult) {
    let op = ((opcode as u32) >> 8u32) & 0x3;
    let rd = ((opcode as u32 & 7) | (((opcode as u32) >> 4u32) & 8)) as u8;
    let rs = (((opcode as u32) >> 3u32) & 0xf) as u8;
    let lhs = exec_reg_spec(s, rd, fetch_pc);
    let rhs = exec_reg_spec(s, rs, fetch_pc);
    if op == 0 || op == 2 {
        let value = if op == 0 {
            lhs.wrapping_add(rhs)
        } else {
            rhs
        };
        let (t, wrote) = write_exec_spec(s, rd, value);
        (t, if wrote {
            ExecutionResult::branched_spec(2)
        } else {
            ExecutionResult::sequential_spec(1)
        })
    } else if op == 1 {
        (arithmetic_result(s, add_with_carry_spec(lhs, !rhs, true)), ExecutionResult::sequential_spec(1))
    } else {
        (branch_spec(s, rhs, bit_of(rhs, 0)), ExecutionResult::branched_spec(2))
    }
}

/// The effect of a format 1-5 instruction.
pub open spec fn thumb_alu_spec(s: CpuView, opcode: u16, fetch_pc: u32) -> (CpuView, ExecutionResult) {
    if opcode & 0xe000 == 0x0000 {
        if ((opcode as u32) >> 11u32) <= 2 {
            (shift_immediate_format_spec(s, opcode), ExecutionResult::sequential_spec(1))
        } else {
            (add_sub_spec(s, opcode), ExecutionResult::sequential_spec(1))
        }
    } else if opcode & 0xe000 == 0x2000 {
        (immediate_spec(s, opcode), ExecutionResult::sequential_spec(1))
    } else if opcode & 0xfc00 == 0x4000 {
        (alu_op_spec(s, opcode), ExecutionResult::sequential_spec(1))
    } else {
        high_reg_spec(s, opcode, fetch_pc)
    }
}

pub fn execute(cpu: &mut Arm7tdmi, opcode: u16, fetch_pc: u32) -> (r: ExecutionResult)
    requires
        old(cpu)@.valid(),
        is_alu_spec(opcode),
    ensures
        final(cpu)@.valid(),
        (final(cpu)@, r) == thumb_alu_spec(old(cpu)@, opcode, fetch_pc),
{
    if (opcode & 0xe000) == 0x0000 {
        assert((opcode & 0xe000 == 0) ==> ((opcode as u32) >> 11u32) <= 3) by (bit_vector);
        if ((opcode as u32) >> 11u32) <= 2 {
            execute_shift_immediate(cpu, opcode)
        } else {
            execute_add_sub(cpu, opcode)
        }
    } else if (opcode & 0xe000) == 0x2000 {
        execute_immediate(cpu, opcode)
    } else if (opcode & 0xfc00) == 0x4000 {
        execute_alu_op(cpu, opcode)
    } else {
        execute_high_reg(cpu, opcode, fetch_pc)
    }
}

fn set_logical_flags(cpu: &mut Arm7tdmi, value: u32, carry: Option<bool>)
    requires
        old(cpu)@.valid(),
    ensures
        final(cpu)@ == logical_result(old(cpu)@, value, carry),
        final(cpu)@.valid(),
{
    let mut cpsr = cpu.cpsr();
    cpsr.set_nz(value);
    proof {
        lemma_flags_keep_mode(old(cpu)@.cpsr, value, false, false);
    }
    if let Some(carry_out) = carry {
        cpsr.set_carry(carry_out);
        proof {
            lemma_flags_keep_mode(old(cpu)@.cpsr, value, carry_out, false);
        }
    }
    cpu.set_cpsr(cpsr);
}

fn set_arithmetic_flags(cpu: &mut Arm7tdmi, result: ArithmeticResult)
    requires
        old(cpu)@.valid(),
    ensures
        final(cpu)@ == arithmetic_result(old(cpu)@, result),
        final(cpu)@.valid(),
{
    let mut cpsr = cpu.cpsr();
    cpsr.set_nzcv(result.value, result.carry_out, result.overflow);
    proof {
        lemma_flags_keep_mode(old(cpu)@.cpsr, result.value, result.carry_out, result.overflow);
    }
    cpu.set_cpsr(cpsr);
}

fn execute_shift_immediate(cpu: &mut Arm7tdmi, opcode: u16) -> (r: ExecutionResult)
    requires
        old(cpu)@.valid(),
    ensures
        final(cpu)@.valid(),
        final(cpu)@ == shift_immediate_format_spec(old(cpu)@, opcode),
        r == ExecutionResult::sequential_spec(1),
{
    let rd = low_reg_at(opcode, 0);
    let rs = low_reg_at(opcode, 3);
    let amount = (((opcode as u32) >> 6u32) & 0x1f) as u8;
    let kind = shift_kind(((opcode as u32) >> 11u32) & 0x3);
    let result = shift_immediate(kind, cpu.read_reg(rs), amount, cpu.cpsr().carry());
    cpu.write_reg(rd, result.value);
    set_logical_flags(cpu, result.value, Some(result.carry_out));
    ExecutionResult::sequential(1)
}

fn execute_add_sub(cpu: &mut Arm7tdmi, opcode: u16) -> (r: ExecutionResult)
    requires
        old(cpu)@.valid(),
    ensures
        final(cpu)@.valid(),
        final(cpu)@ == add_sub_spec(old(cpu)@, opcode),
        r == ExecutionResult::sequential_spec(1),
{
    let immediate = thumb_bit(opcode, 10);
    let subtract = thumb_bit(opcode, 9);
    let operand = low_reg_at(opcode, 6);
    let rs = low_reg_at(opcode, 3);
    let rd = low_reg_at(opcode, 0);
    let lhs = cpu.read_reg(rs);
    let rhs = if immediate {
        operand as u32
    } else {
        cpu.read_reg(operand)
    };
    let result = if subtract {
        add_with_carry(lhs, !rhs, true)
    } else {
        add_with_carry(lhs, rhs, false)
    };
    cpu.write_reg(rd, result.value);
    set_arithmetic_flags(cpu, result);
    ExecutionResult::sequential(1)
}

fn execute_immediate(cpu: &mut Arm7tdmi, opcode: u16) -> (r: ExecutionResult)
    requires
        old(cpu)@.valid(),
    ensures
        final(cpu)@.valid(),
        final(cpu)@ == immediate_spec(old(cpu)@, opcode),
        r == ExecutionResult::sequential_spec(1),
{
    let op = ((opcode as u32) >> 11u32) & 0x3;
    let rd = low_reg_at(opcode, 8);
    let imm = (opcode & 0xff) as u32;
    if op == 0 {
        cpu.write_reg(rd, imm);
        set_logical_flags(cpu, imm, None);
    } else if op == 1 {
        let result = add_with_carry(cpu.read_reg(rd), !imm, true);
        set_arithmetic_flags(cpu, result);
    } else if op == 2 {
        let result = add_with_carry(cpu.read_reg(rd), imm, false);
        cpu.write_reg(rd, result.value);
        set_arithmetic_flags(cpu, result);
    } else {
        let result = add_with_carry(cpu.read_reg(rd), !imm, true);
        cpu.write_reg(rd, result.value);
        set_arithmetic_flags(cpu, result);
    }
    ExecutionResult::sequential(1)
}

#[verifier::rlimit(40)]
fn execute_alu_op(cpu: &mut Arm7tdmi, opcode: u16) -> (r: ExecutionResult)
    requires
        old(cpu)@.valid(),
    ensures
        final(cpu)@.valid(),
        final(cpu)@ == alu_op_spec(old(cpu)@, opcode),
        r == ExecutionResult::sequential_spec(1),
{
    let op = ((opcode as u32) >> 6u32) & 0xf;
    let rs = low_reg_at(opcode, 3);
    let rd = low_reg_at(opcode, 0);
    let lhs = cpu.read_reg(rd);
    let rhs = cpu.read_reg(rs);
    let c = cpu.cpsr().carry();
    let amount = (rhs & 0xff) as u8;

    if op == 0x0 {
        let value = lhs & rhs;
        cpu.write_reg(rd, value);
        set_logical_flags(cpu, value, None);
    } else if op == 0x1 {
        let value = lhs ^ rhs;
        cpu.write_reg(rd, value);
        set_logical_flags(cpu, value, None);
    } else if op == 0x2 || op == 0x3 || op == 0x4 || op == 0x7 {
        let kind = if op == 0x2 {
            ShiftKind::Lsl
        } else if op == 0x3 {
            ShiftKind::Lsr
        } else if op == 0x4 {
            ShiftKind::Asr
        } else {
            ShiftKind::Ror
        };
        let result = shift_register(kind, lhs, amount, c);
        cpu.write_reg(rd, result.value);
        set_logical_flags(cpu, result.value, Some(result.carry_out));
    } else if op == 0x5 {
        let result = add_with_carry(lhs, rhs, c);
        cpu.write_reg(rd, result.value);
        set_arithmetic_flags(cpu, result);
    } else if op == 0x6 {
        let result = add_with_carry(lhs, !rhs, c);
        cpu.write_reg(rd, result.value);
        set_arithmetic_flags(cpu, result);
    } else if op == 0x8 {
        set_logical_flags(cpu, lhs & rhs, None);
    } else if op == 0x9 {
        let result = add_with_carry(0, !rhs, true);
        cpu.write_reg(rd, result.value);
        set_arithmetic_flags(cpu, result);
    } else if op == 0xa {
        let result = add_with_carry(lhs, !rhs, true);
        set_arithmetic_flags(cpu, result);
    } else if op == 0xb {
        let result = add_with_carry(lhs, rhs, false);
        set_arithmetic_flags(cpu, result);
    } else if op == 0xc {
        let value = lhs | rhs;
        cpu.write_reg(rd, value);
        set_logical_flags(cpu, value, None);
    } else if op == 0xd {
        let value = lhs.wrapping_mul(rhs);
        cpu.write_reg(rd, value);
        set_logical_flags(cpu, value, None);
    } else if op == 0xe {
        let value = lhs & !rhs;
        cpu.write_reg(rd, value);
        set_logical_flags(cpu, value, None);
    } else {
        let value = !rhs;
        cpu.write_reg(rd, value);
        set_logical_flags(cpu, value, None);
    }
    ExecutionResult::sequential(1)
}

fn execute_high_reg(cpu: &mut Arm7tdmi, opcode: u16, fetch_pc: u32) -> (r: ExecutionResult)
    requires
        old(cpu)@.valid(),
    ensures
        final(cpu)@.valid(),
        (final(cpu)@, r) == high_reg_spec(old(cpu)@, opcode, fetch_pc),
{
    let op = ((opcode as u32) >> 8u32) & 0x3;
    let o = opcode as u32;
    proof {
        lemma_format_fields(opcode as u32, 0);
    }
    let rd = ((o & 7) | ((o >> 4u32) & 8)) as u8;
    let rs = ((o >> 3u32) & 0xf) as u8;
    let lhs = read_exec_reg(cpu, rd, fetch_pc);
    let rhs = read_exec_reg(cpu, rs, fetch_pc);
    if op == 0 || op == 2 {
        let value = if op == 0 {
            lhs.wrapping_add(rhs)
        } else {
            rhs
        };
        let wrote_pc = write_exec_reg(cpu, rd, value);
        if wrote_pc {
            ExecutionResult::branched(2)
        } else {
            ExecutionResult::sequential(1)
        }
    } else if op == 1 {
        let result = add_with_carry(lhs, !rhs, true);
        set_arithmetic_flags(cpu, result);
        ExecutionResult::sequential(1)
    } else {
        proof {
            lemma_format_fields(opcode as u32, rhs);
        }
        branch_to(cpu, rhs, (rhs & 1) != 0)
    }
}

/// Bit-level facts behind the Thumb formats 1 and 5: their register and
/// operation fields as arithmetic on the opcode, bit 0 of a branch target,
/// and the two alignments a branch applies.
proof fn lemma_format_fields(o: u32, v: u32)
    by (bit_vector)
    ensures
        (o & 7) | ((o >> 4u32) & 8) < 16,
        (o >> 3u32) & 0xf < 16,
        o & 7 == o % 8,
        (o & 7) | ((o >> 4u32) & 8) == (o & 7) + ((o >> 4u32) & 8),
        (o >> 4u32) & 8 == ((o / 128) % 2) * 8,
        (o >> 3u32) & 0xf == (o / 8) % 16,
        (o >> 8u32) & 0x3 == (o / 256) % 4,
        (o >> 11u32) & 0x3 == (o / 2048) % 4,
        (o >> 6u32) & 0x1f == (o / 64) % 32,
        ((v & 1) != 0) == ((v >> 0u32) & 1 == 1),
        ((v >> 0u32) & 1 == 1) == (v % 2 == 1),
        (v & !1u32) == v - v % 2,
        (v & !3u32) == v - v % 4,
{
}

/// Format 1, shifts by an immediate: the operation field (bits 11-12)
/// selects LSL (0), LSR (1) or ASR (2) of Rs by the 5-bit amount in bits
/// 6-10, through the barrel shifter's immediate forms; Rd takes the result,
/// C the bit carried out, N and Z describe the result; no other register
/// changes.
#[verifier::spinoff_prover]
#[verifier::rlimit(40)]
pub proof fn lemma_shift_format_results(s: CpuView, opcode: u16)
    requires
        s.valid(),
    ensures
        ({
            let o = opcode as int;
            let kind_bits = (o / 2048) % 4;
            let n = ((o / 64) % 32) as u8;
            let rd = low_reg(opcode, 0);
            let a = s.reg(low_reg(opcode, 3));
            let c = bit_of(s.cpsr, 29);
            let t = shift_immediate_format_spec(s, opcode);
            let v = t.reg(rd);
            &&& kind_bits == 0 ==> v == shift_immediate_spec(ShiftKind::Lsl, a, n, c).value
                && bit_of(t.cpsr, 29) == shift_immediate_spec(ShiftKind::Lsl, a, n, c).carry_out
            &&& kind_bits == 1 ==> v == shift_immediate_spec(ShiftKind::Lsr, a, n, c).value
                && bit_of(t.cpsr, 29) == shift_immediate_spec(ShiftKind::Lsr, a, n, c).carry_out
            &&& kind_bits == 2 ==> v == shift_immediate_spec(ShiftKind::Asr, a, n, c).value
                && bit_of(t.cpsr, 29) == shift_immediate_spec(ShiftKind::Asr, a, n, c).carry_out
            &&& bit_of(t.cpsr, 31) == bit_of(v, 31) && bit_of(t.cpsr, 30) == (v == 0)
            &&& forall|r: u8| r < 16 && r != rd ==> #[trigger] t.reg(r) == s.reg(r)
        }),
{
    lemma_format_fields(opcode as u32, 0);
    let rd = low_reg(opcode, 0);
    crate::arm7tdmi::arm::lemma_reg_field(opcode as u32, 0);
    let result = shift_immediate_spec(
        shift_kind_spec(((opcode as u32) >> 11u32) & 0x3),
        s.reg(low_reg(opcode, 3)),
        (((opcode as u32) >> 6u32) & 0x1f) as u8,
        bit_of(s.cpsr, 29),
    );
    crate::arm7tdmi::arm::data_proc::lemma_with_reg_effect(s, rd, result.value);
    let w = s.with_reg(rd, result.value);
    crate::arm7tdmi::psr::lemma_flag_bits(w.cpsr, result.value, result.carry_out, false);
    lemma_flags_keep_mode(w.cpsr, result.value, result.carry_out, false);
    let t = shift_immediate_format_spec(s, opcode);
    assert(t.mode() == w.mode());
    assert forall|r: u8| r < 16 && r != rd implies #[trigger] t.reg(r) == s.reg(r) by {
        assert(w.reg(r) == s.reg(r));
    }
}

/// Format 5, the high-register operations, with Rd given by bits 0-2 and
/// bit 7 (H1) and Rs by bits 3-6, each read with the PC as the
/// instruction's address plus 4: ADD (op 0) puts `Rd + Rs` (wrapping) in a
/// destination other than the PC and MOV (op 2) puts Rs there, both leaving
/// the flags alone; CMP (op 1) changes no register and sets N and Z from
/// `Rd - Rs` and C when nothing is borrowed; BX (op 3) branches to Rs,
/// staying in Thumb state (target rounded down to a halfword) when its bit
/// 0 is set and entering ARM state (rounded down to a word) when it is not.
#[verifier::spinoff_prover]
#[verifier::rlimit(40)]
pub proof fn lemma_high_reg_results(s: CpuView, opcode: u16, fetch_pc: u32)
    requires
        s.valid(),
    ensures
        ({
            let o = opcode as int;
            let op = (o / 256) % 4;
            let rd = (o % 8 + 8 * ((o / 128) % 2)) as u8;
            let rs = ((o / 8) % 16) as u8;
            let a = exec_reg_spec(s, rd, fetch_pc);
            let b = exec_reg_spec(s, rs, fetch_pc);
            let t = high_reg_spec(s, opcode, fetch_pc).0;
            &&& (op == 0 && rd != 15) ==> t.reg(rd) == (a + b) % 0x1_0000_0000 && t.cpsr == s.cpsr
            &&& (op == 2 && rd != 15) ==> t.reg(rd) == b && t.cpsr == s.cpsr
            &&& ((op == 0 || op == 2) && rd != 15) ==> forall|r: u8| r < 16 && r != rd ==> #[trigger] t.reg(r) == s.reg(r)
            &&& op == 1 ==> t.regs == s.regs && bit_of(t.cpsr, 31) == ((a - b + 0x1_0000_0000) % 0x1_0000_0000
                >= 0x8000_0000) && bit_of(t.cpsr, 30) == (a == b) && bit_of(t.cpsr, 29) == (a >= b)
            &&& (op == 3 && b % 2 == 1) ==> t.thumb() && t.reg(15) == b - 1
            &&& (op == 3 && b % 2 == 0) ==> !t.thumb() && t.reg(15) == b - b % 4
        }),
{
    let o = opcode as u32;
    let rd = ((o & 7) | ((o >> 4u32) & 8)) as u8;
    let rs = ((o >> 3u32) & 0xf) as u8;
    lemma_format_fields(opcode as u32, 0);
    let a = exec_reg_spec(s, rd, fetch_pc);
    let b = exec_reg_spec(s, rs, fetch_pc);
    lemma_format_fields(opcode as u32, b);
    let op = (o >> 8u32) & 0x3;
    if op == 0 || op == 2 {
        let value = if op == 0 { a.wrapping_add(b) } else { b };
        if rd != 15 {
            crate::arm7tdmi::arm::data_proc::lemma_with_reg_effect(s, rd, value);
        }
    } else if op == 1 {
        let r = add_with_carry_spec(a, !b, true);
        crate::arm7tdmi::alu::lemma_subtract_via_add_with_carry(a, b);
        crate::arm7tdmi::psr::lemma_flag_bits(s.cpsr, r.value, r.carry_out, r.overflow);
        crate::arm7tdmi::psr::lemma_sign_bit(r.value);
    } else {
        let thumb = bit_of(b, 0);
        crate::arm7tdmi::psr::lemma_with_bit_keeps_mode(s.cpsr, 5, thumb);
        crate::arm7tdmi::psr::lemma_with_bit(s.cpsr, 5, thumb, 5);
        let c = s.with_cpsr(crate::arm7tdmi::psr::with_bit(s.cpsr, 5, thumb));
        assert(c.valid());
        let target = crate::arm7tdmi::arm::align_pc_spec(thumb, b);
        crate::arm7tdmi::arm::data_proc::lemma_with_reg_effect(c, 15, target);
        crate::arm7tdmi::psr::lemma_with_bit_keeps_mode(c.cpsr, 5, thumb);
        assert(branch_spec(s, b, thumb).cpsr == c.cpsr);
    }
}

} // verus!
