//! ARM multiplies: MUL/MLA and the long forms UMULL/UMLAL/SMULL/SMLAL.
use vstd::prelude::*;
use crate::arm7tdmi::alu::signed32;
use crate::arm7tdmi::psr::{bit_of, lemma_flags_keep_mode, lemma_with_bit_keeps_mode, with_bit, with_nz};
use crate::arm7tdmi::arm::{
    exec_reg_spec, opcode_bit, read_exec_reg, reg_at, reg_field, write_exec_reg, write_exec_spec,
    ExecutionResult,
};
use crate::arm7tdmi::{Arm7tdmi, CpuView};

verus! {

pub open spec fn is_multiply_spec(opcode: u32) -> bool {
    opcode & 0x0fc0_00f0 == 0x0000_0090
}

pub open spec fn is_multiply_long_spec(opcode: u32) -> bool {
    opcode & 0x0f80_00f0 == 0x0080_0090
}

pub fn is_multiply(opcode: u32) -> (r: bool)
    ensures
        r == is_multiply_spec(opcode),
{
    (opcode & 0x0fc0_00f0) == 0x0000_0090
}

pub fn is_multiply_long(opcode: u32) -> (r: bool)
    ensures
        r == is_multiply_long_spec(opcode),
{
    (opcode & 0x0f80_00f0) == 0x0080_0090
}

/// MUL/MLA: Rd = (Rm * Rs [+ Rn]) modulo 2^32; with S, N and Z from it.
pub open spec fn multiply_spec(s: CpuView, opcode: u32, fetch_pc: u32) -> (CpuView, bool) {
    let rm = exec_reg_spec(s, reg_field(opcode, 0), fetch_pc);
    let rs = exec_reg_spec(s, reg_field(opcode, 8), fetch_pc);
    let rn = exec_reg_spec(s, reg_field(opcode, 12), fetch_pc);
    let product = (rm as int * rs as int) % 0x1_0000_0000;
    let result = if bit_of(opcode, 21) {
        ((product + rn as int) % 0x1_0000_0000) as u32
    } else {
        product as u32
    };
    let (t, wrote) = write_exec_spec(s, reg_field(opcode, 16), result);
    if bit_of(opcode, 20) {
        (t.with_cpsr(with_nz(t.cpsr, result)), wrote)
    } else {
        (t, wrote)
    }
}

pub fn execute_multiply(cpu: &mut Arm7tdmi, opcode: u32, fetch_pc: u32) -> (r: ExecutionResult)
    requires
        old(cpu)@.valid(),
    ensures
        (final(cpu)@, r.wrote_pc) == multiply_spec(old(cpu)@, opcode, fetch_pc),
        final(cpu)@.valid(),
        r.cycles == 2,
{
    let accumulate = opcode_bit(opcode, 21);
    let set_flags = opcode_bit(opcode, 20);
    let rd = reg_at(opcode, 16);
    let rn = reg_at(opcode, 12);
    let rs = reg_at(opcode, 8);
    let rm = reg_at(opcode, 0);

    let mut result = read_exec_reg(cpu, rm, fetch_pc).wrapping_mul(read_exec_reg(cpu, rs, fetch_pc));
    if accumulate {
        result = result.wrapping_add(read_exec_reg(cpu, rn, fetch_pc));
    }
    let wrote_pc = write_exec_reg(cpu, rd, result);
    if set_flags {
        let mut cpsr = cpu.cpsr();
        cpsr.set_nz(result);
        proof {
            lemma_flags_keep_mode(cpu@.cpsr, result, false, false);
        }
        cpu.set_cpsr(cpsr);
    }
    ExecutionResult { cycles: 2, wrote_pc }
}

/// The 64-bit product of two words, signed or unsigned, modulo 2^64.
pub open spec fn long_product_spec(rm: u32, rs: u32, signed: bool) -> u64 {
    if signed {
        let p = signed32(rm) * signed32(rs);
        if p >= 0 {
            p as u64
        } else {
            (p + 0x1_0000_0000_0000_0000) as u64
        }
    } else {
        (rm as int * rs as int) as u64
    }
}

/// UMULL/UMLAL/SMULL/SMLAL: RdHi:RdLo = Rm * Rs [+ RdHi:RdLo] modulo 2^64;
/// with S, N from bit 63 and Z when the whole 64-bit result is zero.
pub open spec fn multiply_long_spec(s: CpuView, opcode: u32, fetch_pc: u32) -> CpuView {
    let rd_hi = reg_field(opcode, 16);
    let rd_lo = reg_field(opcode, 12);
    let rm = exec_reg_spec(s, reg_field(opcode, 0), fetch_pc);
    let rs = exec_reg_spec(s, reg_field(opcode, 8), fetch_pc);
    let product = long_product_spec(rm, rs, bit_of(opcode, 22));
    let current = s.reg(rd_hi) as int * 0x1_0000_0000 + s.reg(rd_lo) as int;
    let acc: int = if bit_of(opcode, 21) {
        (product as int + current) % 0x1_0000_0000_0000_0000
    } else {
        product as int
    };
    let t = s.with_reg(rd_lo, (acc % 0x1_0000_0000) as u32).with_reg(
        rd_hi,
        (acc / 0x1_0000_0000) as u32,
    );
    if bit_of(opcode, 20) {
        t.with_cpsr(with_bit(with_bit(t.cpsr, 31, acc >= 0x8000_0000_0000_0000), 30, acc == 0))
    } else {
        t
    }
}

#[verifier::spinoff_prover]
#[verifier::rlimit(50)]
pub fn execute_multiply_long(cpu: &mut Arm7tdmi, opcode: u32, fetch_pc: u32) -> (r: ExecutionResult)
    requires
        old(cpu)@.valid(),
    ensures
        final(cpu)@ == multiply_long_spec(old(cpu)@, opcode, fetch_pc),
        final(cpu)@.valid(),
        r == ExecutionResult::sequential_spec(3),
{
    let signed = opcode_bit(opcode, 22);
    let accumulate = opcode_bit(opcode, 21);
    let set_flags = opcode_bit(opcode, 20);
    let rd_hi = reg_at(opcode, 16);
    let rd_lo = reg_at(opcode, 12);
    let rs = reg_at(opcode, 8);
    let rm = reg_at(opcode, 0);

    let m = read_exec_reg(cpu, rm, fetch_pc);
    let sv = read_exec_reg(cpu, rs, fetch_pc);
    let product: u64 = if signed {
        let a: i64 = if m < 0x8000_0000 {
            m as i64
        } else {
            m as i64 - 0x1_0000_0000
        };
        let b: i64 = if sv < 0x8000_0000 {
            sv as i64
        } else {
            sv as i64 - 0x1_0000_0000
        };
        assert(-0x4000_0000_0000_0000 <= a * b <= 0x4000_0000_0000_0000) by (nonlinear_arith)
            requires
                -0x8000_0000 <= a <= 0x7fff_ffff,
                -0x8000_0000 <= b <= 0x7fff_ffff,
        ;
        let p: i64 = a * b;
        if p >= 0 {
            p as u64
        } else {
            ((p + 0x4000_0000_0000_0000) as u64) + 0xc000_0000_0000_0000
        }
    } else {
        assert((m as int) * (sv as int) <= 0xffff_fffe_0000_0001) by (nonlinear_arith)
            requires
                m <= 0xffff_ffff,
                sv <= 0xffff_ffff,
        ;
        (m as u64) * (sv as u64)
    };

    let accumulated: u64 = if accumulate {
        let current: u64 = (cpu.read_reg(rd_hi) as u64) * 0x1_0000_0000 + cpu.read_reg(rd_lo) as u64;
        product.wrapping_add(current)
    } else {
        product
    };

    cpu.write_reg(rd_lo, (accumulated % 0x1_0000_0000) as u32);
    cpu.write_reg(rd_hi, (accumulated / 0x1_0000_0000) as u32);

    if set_flags {
        let mut cpsr = cpu.cpsr();
        cpsr.set_negative(accumulated >= 0x8000_0000_0000_0000);
        cpsr.set_zero(accumulated == 0);
        proof {
            lemma_with_bit_keeps_mode(cpu@.cpsr, 31, accumulated >= 0x8000_0000_0000_0000);
            lemma_with_bit_keeps_mode(
                with_bit(cpu@.cpsr, 31, accumulated >= 0x8000_0000_0000_0000),
                30,
                accumulated == 0,
            );
        }
        cpu.set_cpsr(cpsr);
    }
    ExecutionResult::sequential(3)
}

/// Writing a register other than the PC and then replacing the CPSR with
/// one of the same mode: the register holds the value, every other register
/// keeps its value.
proof fn lemma_write_then_flags(s: CpuView, rd: u8, v: u32, cpsr: u32)
    requires
        s.valid(),
        rd < 15,
        crate::arm7tdmi::psr::psr_mode(cpsr) == crate::arm7tdmi::psr::psr_mode(s.cpsr),
    ensures
        s.with_reg(rd, v).with_cpsr(cpsr).valid(),
        s.with_reg(rd, v).with_cpsr(cpsr).reg(rd) == v,
        forall|r: u8| r < 16 && r != rd ==> #[trigger] s.with_reg(rd, v).with_cpsr(cpsr).reg(r) == s.reg(r),
{
    crate::arm7tdmi::arm::data_proc::lemma_with_reg_effect(s, rd, v);
    let t = s.with_reg(rd, v);
    assert(t.with_cpsr(cpsr).mode() == t.mode());
    assert forall|r: u8| r < 16 && r != rd implies #[trigger] t.with_cpsr(cpsr).reg(r) == s.reg(r) by {
        assert(t.reg(r) == s.reg(r));
    }
}

/// MUL and MLA: with a destination other than the PC, the destination
/// receives `Rm * Rs` wrapped to 32 bits, plus `Rn` for MLA (accumulate,
/// bit 21); no other register changes; with S (bit 20) N and Z follow the
/// result, C and V stay; without S the CPSR stays.
#[verifier::spinoff_prover]
#[verifier::rlimit(40)]
pub proof fn lemma_multiply_results(s: CpuView, opcode: u32, fetch_pc: u32)
    requires
        s.valid(),
        reg_field(opcode, 16) != 15,
    ensures
        ({
            let rd = reg_field(opcode, 16);
            let rm = exec_reg_spec(s, reg_field(opcode, 0), fetch_pc);
            let rs = exec_reg_spec(s, reg_field(opcode, 8), fetch_pc);
            let rn = exec_reg_spec(s, reg_field(opcode, 12), fetch_pc);
            let expected: int = if bit_of(opcode, 21) {
                (rm as int * rs as int + rn as int) % 0x1_0000_0000
            } else {
                (rm as int * rs as int) % 0x1_0000_0000
            };
            let (t, wrote) = multiply_spec(s, opcode, fetch_pc);
            &&& !wrote
            &&& t.reg(rd) == expected
            &&& forall|r: u8| r < 16 && r != rd ==> #[trigger] t.reg(r) == s.reg(r)
            &&& bit_of(opcode, 20) ==> t.cpsr == with_nz(s.cpsr, expected as u32)
            &&& !bit_of(opcode, 20) ==> t.cpsr == s.cpsr
        }),
{
    let rd = reg_field(opcode, 16);
    crate::arm7tdmi::arm::lemma_reg_field(opcode, 16);
    let rm = exec_reg_spec(s, reg_field(opcode, 0), fetch_pc);
    let rs = exec_reg_spec(s, reg_field(opcode, 8), fetch_pc);
    let rn = exec_reg_spec(s, reg_field(opcode, 12), fetch_pc);
    let product = (rm as int * rs as int) % 0x1_0000_0000;
    vstd::arithmetic::div_mod::lemma_add_mod_noop(rm as int * rs as int, rn as int, 0x1_0000_0000);
    vstd::arithmetic::div_mod::lemma_mod_twice(rn as int, 0x1_0000_0000);
    vstd::arithmetic::div_mod::lemma_small_mod(rn as nat, 0x1_0000_0000);
    assert((product + rn as int) % 0x1_0000_0000 == (rm as int * rs as int + rn as int) % 0x1_0000_0000);
    let result = if bit_of(opcode, 21) {
        ((product + rn as int) % 0x1_0000_0000) as u32
    } else {
        product as u32
    };
    let t = s.with_reg(rd, result);
    lemma_flags_keep_mode(t.cpsr, result, false, false);
    crate::arm7tdmi::arm::data_proc::lemma_with_reg_effect(s, rd, result);
    lemma_write_then_flags(s, rd, result, with_nz(t.cpsr, result));
    lemma_write_then_flags(s, rd, result, t.cpsr);
    assert(s.with_reg(rd, result).with_cpsr(t.cpsr) == t);
}

/// UMULL, UMLAL, SMULL and SMLAL, with two different destinations other
/// than the PC: RdHi:RdLo read as one 64-bit number is the product of Rm
/// and Rs (as unsigned words, or for the signed forms, bit 22, as
/// two's-complement words, the product taken modulo 2^64), plus the
/// previous RdHi:RdLo for the accumulating forms (bit 21), modulo 2^64; no
/// other register changes.
#[verifier::spinoff_prover]
#[verifier::rlimit(40)]
pub proof fn lemma_multiply_long_results(s: CpuView, opcode: u32, fetch_pc: u32)
    requires
        s.valid(),
        reg_field(opcode, 16) != 15,
        reg_field(opcode, 12) != 15,
        reg_field(opcode, 16) != reg_field(opcode, 12),
    ensures
        ({
            let hi = reg_field(opcode, 16);
            let lo = reg_field(opcode, 12);
            let rm = exec_reg_spec(s, reg_field(opcode, 0), fetch_pc);
            let rs = exec_reg_spec(s, reg_field(opcode, 8), fetch_pc);
            let product: int = if bit_of(opcode, 22) {
                (signed32(rm) * signed32(rs)) % 0x1_0000_0000_0000_0000
            } else {
                rm as int * rs as int
            };
            let before = s.reg(hi) as int * 0x1_0000_0000 + s.reg(lo) as int;
            let expected: int = if bit_of(opcode, 21) {
                (product + before) % 0x1_0000_0000_0000_0000
            } else {
                product
            };
            let t = multiply_long_spec(s, opcode, fetch_pc);
            &&& t.reg(hi) as int * 0x1_0000_0000 + t.reg(lo) as int == expected
            &&& forall|r: u8| r < 16 && r != hi && r != lo ==> #[trigger] t.reg(r) == s.reg(r)
        }),
{
    let hi = reg_field(opcode, 16);
    let lo = reg_field(opcode, 12);
    crate::arm7tdmi::arm::lemma_reg_field(opcode, 16);
    crate::arm7tdmi::arm::lemma_reg_field(opcode, 12);
    let rm = exec_reg_spec(s, reg_field(opcode, 0), fetch_pc);
    let rs = exec_reg_spec(s, reg_field(opcode, 8), fetch_pc);
    let M = 0x1_0000_0000_0000_0000int;
    let p = long_product_spec(rm, rs, bit_of(opcode, 22));
    if bit_of(opcode, 22) {
        let sp = signed32(rm) * signed32(rs);
        assert(-0x4000_0000_0000_0000 <= sp <= 0x4000_0000_0000_0000) by (nonlinear_arith)
            requires
                sp == signed32(rm) * signed32(rs),
                -0x8000_0000 <= signed32(rm) <= 0x7fff_ffff,
                -0x8000_0000 <= signed32(rs) <= 0x7fff_ffff,
        ;
        if sp >= 0 {
            vstd::arithmetic::div_mod::lemma_small_mod(sp as nat, M as nat);
        } else {
            vstd::arithmetic::div_mod::lemma_mod_add_multiples_vanish(sp, M);
            vstd::arithmetic::div_mod::lemma_small_mod((sp + M) as nat, M as nat);
        }
        assert(p as int == sp % M);
    } else {
        assert(rm as int * rs as int <= 0xffff_fffe_0000_0001) by (nonlinear_arith)
            requires
                rm <= 0xffff_ffff,
                rs <= 0xffff_ffff,
        ;
        assert(0 <= rm as int * rs as int) by (nonlinear_arith);
        assert(p as int == rm as int * rs as int);
    }
    let current = s.reg(hi) as int * 0x1_0000_0000 + s.reg(lo) as int;
    let acc: int = if bit_of(opcode, 21) {
        (p as int + current) % M
    } else {
        p as int
    };
    if bit_of(opcode, 21) {
        vstd::arithmetic::div_mod::lemma_add_mod_noop(p as int, current, M);
        assert(0 <= current < M);
        vstd::arithmetic::div_mod::lemma_small_mod(current as nat, M as nat);
        if bit_of(opcode, 22) {
            vstd::arithmetic::div_mod::lemma_add_mod_noop(signed32(rm) * signed32(rs), current, M);
            vstd::arithmetic::div_mod::lemma_mod_twice(signed32(rm) * signed32(rs), M);
        }
    }
    assert(0 <= acc < M);
    let vlo = (acc % 0x1_0000_0000) as u32;
    let vhi = (acc / 0x1_0000_0000) as u32;
    vstd::arithmetic::div_mod::lemma_fundamental_div_mod(acc, 0x1_0000_0000);
    assert(acc / 0x1_0000_0000 < 0x1_0000_0000) by {
        vstd::arithmetic::div_mod::lemma_div_by_multiple_is_strongly_ordered(acc, M, 0x1_0000_0000, 0x1_0000_0000);
        assert(M / 0x1_0000_0000 == 0x1_0000_0000);
        vstd::arithmetic::div_mod::lemma_div_is_ordered(acc, M - 1, 0x1_0000_0000);
    }
    crate::arm7tdmi::arm::data_proc::lemma_with_reg_effect(s, lo, vlo);
    let t1 = s.with_reg(lo, vlo);
    assert(t1.valid());
    crate::arm7tdmi::arm::data_proc::lemma_with_reg_effect(t1, hi, vhi);
    let t = t1.with_reg(hi, vhi);
    assert(t.valid());
    lemma_with_bit_keeps_mode(t.cpsr, 31, acc >= 0x8000_0000_0000_0000);
    lemma_with_bit_keeps_mode(with_bit(t.cpsr, 31, acc >= 0x8000_0000_0000_0000), 30, acc == 0);
    let c = with_bit(with_bit(t.cpsr, 31, acc >= 0x8000_0000_0000_0000), 30, acc == 0);
    assert(t.with_cpsr(c).mode() == t.mode());
    assert(vhi as int * 0x1_0000_0000 + vlo as int == acc);
}

} // verus!
