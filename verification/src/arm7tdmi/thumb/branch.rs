//! Thumb formats 16-19: conditional branch and SWI, unconditional branch and
//! the two halves of BL.
use vstd::prelude::*;
use crate::arm7tdmi::arm::{branch_spec, condition_spec, ExecutionResult};
use crate::arm7tdmi::exception::{exception_entry, Exception};
use crate::arm7tdmi::psr::bit_of;
use crate::arm7tdmi::thumb::{branch_to, visible_pc, visible_pc_spec};
use crate::arm7tdmi::{Arm7tdmi, CpuView, Psr, LR, PC};

verus! {

pub open spec fn is_branch_spec(opcode: u16) -> bool {
    opcode & 0xf000 == 0xd000 || opcode & 0xf800 == 0xe000 || opcode & 0xf000 == 0xf000
}

pub fn is_branch(opcode: u16) -> (r: bool)
    ensures
        r == is_branch_spec(opcode),
{
    (opcode & 0xf000) == 0xd000 || (opcode & 0xf800) == 0xe000 || (opcode & 0xf000) == 0xf000
}

/// `value` (below `2^bits`) sign-extended from bit `bits - 1`.
pub open spec fn sign_extend_spec(value: u32, bits: u32) -> u32 {
    if bit_of(value, (bits - 1) as u32) {
        value | (0xffff_ffffu32 << bits)
    } else {
        value
    }
}

fn sign_extend(value: u32, bits: u32) -> (r: u32)
    requires
        1 <= bits < 32,
    ensures
        r == sign_extend_spec(value, bits),
{
    if crate::arm7tdmi::arm::opcode_bit(value, bits - 1) {
        value | (0xffff_ffffu32 << bits)
    } else {
        value
    }
}

/// Thumb conditions: as in ARM for 0x0-0xd; 0xe and 0xf never pass here
/// (they encode the undefined instruction and SWI).
pub open spec fn thumb_condition_spec(cpsr: u32, cond: u8) -> bool {
    (cond & 0xf) < 0xe && condition_spec(cpsr, cond)
}

fn condition_passed(cpsr: Psr, cond: u8) -> (r: bool)
    ensures
        r == thumb_condition_spec(cpsr@, cond),
{
    (cond & 0xf) < 0xe && crate::arm7tdmi::arm::condition_passed(cpsr, cond)
}

/// The effect of a Thumb branch-format instruction.
pub open spec fn thumb_branch_spec(s: CpuView, opcode: u16, fetch_pc: u32) -> (CpuView, ExecutionResult) {
    let op = opcode as u32;
    if opcode & 0xf000 == 0xd000 {
        let cond = ((op >> 8u32) & 0xf) as u8;
        if cond == 0xf {
            (exception_entry(s, Exception::SoftwareInterrupt, fetch_pc.wrapping_add(2)), ExecutionResult::branched_spec(2))
        } else if cond == 0xe {
            (exception_entry(s, Exception::UndefinedInstruction, fetch_pc.wrapping_add(2)), ExecutionResult::branched_spec(2))
        } else if !thumb_condition_spec(s.cpsr, cond) {
            (s, ExecutionResult::sequential_spec(1))
        } else {
            let offset = sign_extend_spec((op & 0xff) << 1u32, 9);
            (branch_spec(s, visible_pc_spec(fetch_pc).wrapping_add(offset), true), ExecutionResult::branched_spec(2))
        }
    } else if opcode & 0xf800 == 0xe000 {
        let offset = sign_extend_spec((op & 0x7ff) << 1u32, 12);
        (branch_spec(s, visible_pc_spec(fetch_pc).wrapping_add(offset), true), ExecutionResult::branched_spec(2))
    } else if opcode & 0xf800 == 0xf000 {
        let offset = sign_extend_spec((op & 0x07ff) << 12u32, 23);
        (s.with_reg(LR, visible_pc_spec(fetch_pc).wrapping_add(offset)), ExecutionResult::sequential_spec(1))
    } else {
        let target = s.reg(LR).wrapping_add((op & 0x07ff) << 1u32);
        (branch_spec(s.with_reg(LR, fetch_pc.wrapping_add(2) | 1), target, true), ExecutionResult::branched_spec(2))
    }
}

pub fn execute(cpu: &mut Arm7tdmi, opcode: u16, fetch_pc: u32) -> (r: ExecutionResult)
    requires
        old(cpu)@.valid(),
        is_branch_spec(opcode),
    ensures
        final(cpu)@.valid(),
        (final(cpu)@, r) == thumb_branch_spec(old(cpu)@, opcode, fetch_pc),
{
    if (opcode & 0xf000) == 0xd000 {
        execute_conditional_or_swi(cpu, opcode, fetch_pc)
    } else if (opcode & 0xf800) == 0xe000 {
        execute_unconditional_branch(cpu, opcode, fetch_pc)
    } else if (opcode & 0xf800) == 0xf000 {
        execute_bl_high(cpu, opcode, fetch_pc)
    } else {
        execute_bl_low(cpu, opcode, fetch_pc)
    }
}

/// Format 16, with condition 0xf taken as SWI and 0xe as undefined.
fn execute_conditional_or_swi(cpu: &mut Arm7tdmi, opcode: u16, fetch_pc: u32) -> (r: ExecutionResult)
    requires
        old(cpu)@.valid(),
        opcode & 0xf000 == 0xd000,
    ensures
        final(cpu)@.valid(),
        (final(cpu)@, r) == thumb_branch_spec(old(cpu)@, opcode, fetch_pc),
{
    let op = opcode as u32;
    let cond = ((op >> 8u32) & 0xf) as u8;
    if cond == 0xf {
        cpu.enter_exception(Exception::SoftwareInterrupt, fetch_pc.wrapping_add(2));
        ExecutionResult::branched(2)
    } else if cond == 0xe {
        cpu.enter_exception(Exception::UndefinedInstruction, fetch_pc.wrapping_add(2));
        ExecutionResult::branched(2)
    } else if !condition_passed(cpu.cpsr(), cond) {
        ExecutionResult::sequential(1)
    } else {
        let offset = sign_extend((op & 0xff) << 1u32, 9);
        let target = visible_pc(fetch_pc).wrapping_add(offset);
        branch_to(cpu, target, true)
    }
}

/// Format 18: unconditional branch by an 11-bit halfword offset.
fn execute_unconditional_branch(cpu: &mut Arm7tdmi, opcode: u16, fetch_pc: u32) -> (r: ExecutionResult)
    requires
        old(cpu)@.valid(),
        opcode & 0xf000 != 0xd000,
        opcode & 0xf800 == 0xe000,
    ensures
        final(cpu)@.valid(),
        (final(cpu)@, r) == thumb_branch_spec(old(cpu)@, opcode, fetch_pc),
{
    let op = opcode as u32;
    let offset = sign_extend((op & 0x7ff) << 1u32, 12);
    let target = visible_pc(fetch_pc).wrapping_add(offset);
    branch_to(cpu, target, true)
}

/// Format 19, first half: LR takes the PC plus the high part of the offset.
fn execute_bl_high(cpu: &mut Arm7tdmi, opcode: u16, fetch_pc: u32) -> (r: ExecutionResult)
    requires
        old(cpu)@.valid(),
        opcode & 0xf000 != 0xd000,
        opcode & 0xf800 == 0xf000,
    ensures
        final(cpu)@.valid(),
        (final(cpu)@, r) == thumb_branch_spec(old(cpu)@, opcode, fetch_pc),
{
    let op = opcode as u32;
    let offset = sign_extend((op & 0x07ff) << 12u32, 23);
    let base = visible_pc(fetch_pc);
    cpu.set_lr(base.wrapping_add(offset));
    ExecutionResult::sequential(1)
}

/// Format 19, second half: branch to LR plus the low part, leaving the
/// return address (with the Thumb bit) in LR.
fn execute_bl_low(cpu: &mut Arm7tdmi, opcode: u16, fetch_pc: u32) -> (r: ExecutionResult)
    requires
        old(cpu)@.valid(),
        opcode & 0xf000 != 0xd000,
        opcode & 0xf800 != 0xe000,
        opcode & 0xf800 != 0xf000,
    ensures
        final(cpu)@.valid(),
        (final(cpu)@, r) == thumb_branch_spec(old(cpu)@, opcode, fetch_pc),
{
    let op = opcode as u32;
    let offset = (op & 0x07ff) << 1u32;
    let target = cpu.lr().wrapping_add(offset);
    cpu.set_lr(fetch_pc.wrapping_add(2) | 1);
    branch_to(cpu, target, true)
}

/// Bit-level facts behind Thumb branches: each offset field moved into
/// place, its sign bit, the sign fill as an addition, halfword alignment,
/// the Thumb bit set in a return address, and the format classes.
proof fn lemma_thumb_branch_bits(opcode: u16, t: u32)
    by (bit_vector)
    ensures
        (((opcode as u32) & 0xff) << 1u32) == ((opcode as u32) & 0xff) * 2,
        (((opcode as u32) & 0xff) < 0x100),
        ((((((opcode as u32) & 0xff) << 1u32) >> 8u32) & 1 == 1) == (((opcode as u32) & 0xff) >= 0x80)),
        ((((opcode as u32) & 0xff) << 1u32) | (0xffff_ffffu32 << 9u32)) == (((opcode as u32) & 0xff)
            << 1u32) + 0xffff_fe00,
        (((opcode as u32) & 0x7ff) << 1u32) == ((opcode as u32) & 0x7ff) * 2,
        ((opcode as u32) & 0x7ff) < 0x800,
        ((((((opcode as u32) & 0x7ff) << 1u32) >> 11u32) & 1 == 1) == (((opcode as u32) & 0x7ff) >= 0x400)),
        ((((opcode as u32) & 0x7ff) << 1u32) | (0xffff_ffffu32 << 12u32)) == (((opcode as u32) & 0x7ff)
            << 1u32) + 0xffff_f000,
        (((opcode as u32) & 0x7ff) << 12u32) == ((opcode as u32) & 0x7ff) * 0x1000,
        ((((((opcode as u32) & 0x7ff) << 12u32) >> 22u32) & 1 == 1) == (((opcode as u32) & 0x7ff) >= 0x400)),
        ((((opcode as u32) & 0x7ff) << 12u32) | (0xffff_ffffu32 << 23u32)) == (((opcode as u32) & 0x7ff)
            << 12u32) + 0xff80_0000,
        (t & !1u32) == t - t % 2,
        (t | 1) == t - t % 2 + 1,
        opcode & 0xf800 == 0xe000 ==> opcode & 0xf000 != 0xd000,
        opcode & 0xf800 == 0xf000 ==> opcode & 0xf000 != 0xd000,
        opcode & 0xf800 == 0xf800 ==> opcode & 0xf000 != 0xd000 && opcode & 0xf800 != 0xe000,
{
}

/// The signed value of the low `bits` bits of a field.
pub open spec fn signed_field(field: int, bits: nat) -> int {
    if field < vstd::arithmetic::power2::pow2((bits - 1) as nat) {
        field
    } else {
        field - vstd::arithmetic::power2::pow2(bits)
    }
}

/// Branching to `target` in Thumb state keeps the mode and every other
/// register, and sets the PC to the target rounded down to a halfword.
proof fn lemma_thumb_branch_to(s: CpuView, target: u32)
    requires
        s.valid(),
    ensures
        branch_spec(s, target, true).valid(),
        branch_spec(s, target, true).thumb(),
        branch_spec(s, target, true).mode() == s.mode(),
        branch_spec(s, target, true).reg(PC) == (target & !1u32),
        forall|r: u8| r < 16 && r != PC ==> #[trigger] branch_spec(s, target, true).reg(r) == s.reg(r),
{
    crate::arm7tdmi::psr::lemma_with_bit_keeps_mode(s.cpsr, 5, true);
    crate::arm7tdmi::psr::lemma_with_bit(s.cpsr, 5, true, 5);
    let c = s.with_cpsr(crate::arm7tdmi::psr::with_bit(s.cpsr, 5, true));
    assert(c.valid());
    crate::arm7tdmi::arm::data_proc::lemma_with_reg_effect(c, PC, target & !1u32);
    crate::arm7tdmi::psr::lemma_with_bit_keeps_mode(c.cpsr, 5, true);
    assert(branch_spec(s, target, true).cpsr == c.cpsr);
    assert forall|r: u8| r < 16 && r != PC implies #[trigger] branch_spec(s, target, true).reg(r) == s.reg(r) by {
        assert(c.reg(r) == s.reg(r));
    }
}

/// Thumb branches move by signed halfword offsets from the instruction's
/// address plus 4: a taken conditional branch (condition below 0xe) by its
/// signed 8-bit field, an unconditional branch by its signed 11-bit field,
/// landing on the target rounded down to a halfword in Thumb state; a
/// conditional branch whose condition fails changes nothing.
#[verifier::spinoff_prover]
#[verifier::rlimit(40)]
pub proof fn lemma_thumb_branch_offsets(s: CpuView, opcode: u16, fetch_pc: u32)
    requires
        s.valid(),
    ensures
        ({
            let cond = (((opcode as u32) >> 8u32) & 0xf) as u8;
            let t8 = (fetch_pc + 4 + 2 * signed_field(((opcode as u32) & 0xff) as int, 8)) % 0x1_0000_0000;
            let t11 = (fetch_pc + 4 + 2 * signed_field(((opcode as u32) & 0x7ff) as int, 11)) % 0x1_0000_0000;
            let t = thumb_branch_spec(s, opcode, fetch_pc).0;
            &&& (opcode & 0xf000 == 0xd000 && cond < 0xe && thumb_condition_spec(s.cpsr, cond)) ==> (t.reg(PC)
                == t8 - t8 % 2 && t.thumb())
            &&& (opcode & 0xf000 == 0xd000 && cond < 0xe && !thumb_condition_spec(s.cpsr, cond)) ==> t == s
            &&& opcode & 0xf800 == 0xe000 ==> (t.reg(PC) == t11 - t11 % 2 && t.thumb())
        }),
{
    let op = opcode as u32;
    vstd::arithmetic::power2::lemma2_to64();
    let a = visible_pc_spec(fetch_pc).wrapping_add(sign_extend_spec((op & 0xff) << 1u32, 9));
    let b = visible_pc_spec(fetch_pc).wrapping_add(sign_extend_spec((op & 0x7ff) << 1u32, 12));
    lemma_thumb_branch_bits(opcode, a);
    lemma_thumb_branch_bits(opcode, b);
    lemma_thumb_branch_to(s, a);
    lemma_thumb_branch_to(s, b);
}

/// A BL pair, the high half at `pc1` and the low half at `pc2`, branches to
/// `pc1` plus 4 plus the 22-bit signed halfword offset split across the two
/// halves (high part times 4096, low part times 2), in Thumb state, and
/// leaves in LR the address after the low half with bit 0 set.
#[verifier::spinoff_prover]
#[verifier::rlimit(40)]
pub proof fn lemma_thumb_bl_pair(s: CpuView, hi: u16, lo: u16, pc1: u32, pc2: u32)
    requires
        s.valid(),
        hi & 0xf800 == 0xf000,
        lo & 0xf800 == 0xf800,
    ensures
        ({
            let s1 = thumb_branch_spec(s, hi, pc1).0;
            let s2 = thumb_branch_spec(s1, lo, pc2).0;
            let target = (pc1 + 4 + 0x1000 * signed_field(((hi as u32) & 0x7ff) as int, 11) + 2 * ((lo as u32)
                & 0x7ff)) % 0x1_0000_0000;
            let ret = (pc2 + 2) % 0x1_0000_0000;
            &&& s2.reg(PC) == target - target % 2
            &&& s2.reg(LR) == ret - ret % 2 + 1
            &&& s2.thumb()
            &&& s2.mode() == s.mode()
        }),
{
    vstd::arithmetic::power2::lemma2_to64();
    let h = hi as u32;
    let l = lo as u32;
    let high = visible_pc_spec(pc1).wrapping_add(sign_extend_spec((h & 0x07ff) << 12u32, 23));
    lemma_thumb_branch_bits(hi, high);
    crate::arm7tdmi::arm::data_proc::lemma_with_reg_effect(s, LR, high);
    let s1 = s.with_reg(LR, high);
    assert(thumb_branch_spec(s, hi, pc1).0 == s1);
    assert(s1.valid());
    let target = s1.reg(LR).wrapping_add((l & 0x07ff) << 1u32);
    let ret = pc2.wrapping_add(2);
    lemma_thumb_branch_bits(lo, target);
    lemma_thumb_branch_bits(lo, ret);
    crate::arm7tdmi::arm::data_proc::lemma_with_reg_effect(s1, LR, ret | 1);
    let s3 = s1.with_reg(LR, ret | 1);
    assert(s3.valid());
    lemma_thumb_branch_to(s3, target);
}

} // verus!
