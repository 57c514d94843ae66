//! ARM branches: B, BL, BX and SWI.
use vstd::prelude::*;
use crate::arm7tdmi::exception::{exception_entry, Exception};
use crate::arm7tdmi::psr::bit_of;
use crate::arm7tdmi::arm::{
    branch_spec, branch_to, exec_reg_spec, read_exec_reg, reg_at, reg_field, visible_pc,
    visible_pc_spec, ExecutionResult,
};
use crate::arm7tdmi::{Arm7tdmi, CpuView, LR, PC};

verus! {

pub open spec fn is_bx_spec(opcode: u32) -> bool {
    opcode & 0x0fff_fff0 == 0x012f_ff10
}

pub open spec fn is_branch_spec(opcode: u32) -> bool {
    opcode & 0x0e00_0000 == 0x0a00_0000
}

pub open spec fn is_software_interrupt_spec(opcode: u32) -> bool {
    opcode & 0x0f00_0000 == 0x0f00_0000
}

pub fn is_bx(opcode: u32) -> (r: bool)
    ensures
        r == is_bx_spec(opcode),
{
    (opcode & 0x0fff_fff0) == 0x012f_ff10
}

pub fn is_branch(opcode: u32) -> (r: bool)
    ensures
        r == is_branch_spec(opcode),
{
    (opcode & 0x0e00_0000) == 0x0a00_0000
}

pub fn is_software_interrupt(opcode: u32) -> (r: bool)
    ensures
        r == is_software_interrupt_spec(opcode),
{
    (opcode & 0x0f00_0000) == 0x0f00_0000
}

/// BX: branch to Rn, entering Thumb state when its bit 0 is set.
pub open spec fn bx_spec(s: CpuView, opcode: u32, fetch_pc: u32) -> CpuView {
    let target = exec_reg_spec(s, reg_field(opcode, 0), fetch_pc);
    branch_spec(s, target, bit_of(target, 0))
}

pub fn execute_bx(cpu: &mut Arm7tdmi, opcode: u32, fetch_pc: u32) -> (r: ExecutionResult)
    requires
        old(cpu)@.valid(),
    ensures
        final(cpu)@ == bx_spec(old(cpu)@, opcode, fetch_pc),
        final(cpu)@.valid(),
        r == ExecutionResult::branched_spec(2),
{
    let rn = reg_at(opcode, 0);
    let target = read_exec_reg(cpu, rn, fetch_pc);
    proof {
        lemma_branch_bits(opcode, target);
    }
    branch_to(cpu, target, (target & 1) != 0)
}

/// The signed word offset of a branch: the 24-bit field shifted left by two
/// and sign-extended from bit 25.
pub open spec fn branch_offset_spec(opcode: u32) -> u32 {
    let imm = (opcode & 0x00ff_ffff) << 2u32;
    if bit_of(imm, 25) {
        imm | 0xfc00_0000
    } else {
        imm
    }
}

/// B/BL: BL first stores the address of the next instruction in LR; both
/// then branch to the visible PC plus the offset, staying in ARM state.
pub open spec fn branch_link_spec(s: CpuView, opcode: u32, fetch_pc: u32) -> CpuView {
    let linked = if bit_of(opcode, 24) {
        s.with_reg(LR, fetch_pc.wrapping_add(4))
    } else {
        s
    };
    branch_spec(linked, visible_pc_spec(fetch_pc).wrapping_add(branch_offset_spec(opcode)), false)
}

pub fn execute_branch(cpu: &mut Arm7tdmi, opcode: u32, fetch_pc: u32) -> (r: ExecutionResult)
    requires
        old(cpu)@.valid(),
    ensures
        final(cpu)@ == branch_link_spec(old(cpu)@, opcode, fetch_pc),
        final(cpu)@.valid(),
        r == ExecutionResult::branched_spec(2),
{
    if crate::arm7tdmi::arm::opcode_bit(opcode, 24) {
        cpu.set_lr(fetch_pc.wrapping_add(4));
    }
    let imm = (opcode & 0x00ff_ffff) << 2u32;
    let offset = if crate::arm7tdmi::arm::opcode_bit(imm, 25) {
        imm | 0xfc00_0000
    } else {
        imm
    };
    let target = visible_pc(fetch_pc).wrapping_add(offset);
    branch_to(cpu, target, false)
}

/// Bit-level facts behind branches: bit 0 of a target, the 24-bit offset
/// field moved up two places (bit 25 then being the field's sign), the sign
/// fill, and the word alignment of a target.
proof fn lemma_branch_bits(opcode: u32, t: u32)
    by (bit_vector)
    ensures
        ((t & 1) != 0) == ((t >> 0u32) & 1 == 1),
        (opcode & 0x00ff_ffff) << 2u32 == (opcode & 0x00ff_ffff) * 4,
        (opcode & 0x00ff_ffff) < 0x100_0000,
        ((((opcode & 0x00ff_ffff) << 2u32) >> 25u32) & 1 == 1) == ((opcode & 0x00ff_ffff) >= 0x80_0000),
        (((opcode & 0x00ff_ffff) << 2u32) | 0xfc00_0000) == ((opcode & 0x00ff_ffff) << 2u32) + 0xfc00_0000,
        (t & !3u32) == t - t % 4,
{
}

/// B and BL branch by the signed 24-bit word offset in the instruction: the
/// new PC is the instruction's address plus 8 plus four times the offset
/// (wrapping, and rounded down to a word), in ARM state; BL leaves the
/// address of the next instruction in LR, B leaves LR alone.
#[verifier::spinoff_prover]
#[verifier::rlimit(40)]
pub proof fn lemma_branch_target(s: CpuView, opcode: u32, fetch_pc: u32)
    requires
        s.valid(),
    ensures
        ({
            let field = opcode & 0x00ff_ffff;
            let offset: int = if field < 0x80_0000 { field as int } else { field - 0x100_0000 };
            let target = (fetch_pc + 8 + 4 * offset) % 0x1_0000_0000;
            let t = branch_link_spec(s, opcode, fetch_pc);
            &&& t.reg(PC) == target - target % 4
            &&& !t.thumb()
            &&& t.mode() == s.mode()
            &&& bit_of(opcode, 24) ==> t.reg(LR) == (fetch_pc + 4) % 0x1_0000_0000
            &&& !bit_of(opcode, 24) ==> t.reg(LR) == s.reg(LR)
        }),
{
    let field = opcode & 0x00ff_ffff;
    let offset: int = if field < 0x80_0000 { field as int } else { field - 0x100_0000 };
    let linked = if bit_of(opcode, 24) {
        s.with_reg(LR, fetch_pc.wrapping_add(4))
    } else {
        s
    };
    let target = visible_pc_spec(fetch_pc).wrapping_add(branch_offset_spec(opcode));
    lemma_branch_bits(opcode, target);
    assert(target == (fetch_pc + 8 + 4 * offset) % 0x1_0000_0000);
    crate::arm7tdmi::arm::data_proc::lemma_with_reg_effect(s, LR, fetch_pc.wrapping_add(4));
    assert(linked.valid());
    crate::arm7tdmi::psr::lemma_with_bit_keeps_mode(linked.cpsr, 5, false);
    crate::arm7tdmi::psr::lemma_with_bit(linked.cpsr, 5, false, 5);
    let c = linked.with_cpsr(crate::arm7tdmi::psr::with_bit(linked.cpsr, 5, false));
    assert(c.valid());
    assert(c.mode() == s.mode());
    crate::arm7tdmi::arm::data_proc::lemma_with_reg_effect(c, PC, target & !3u32);
}

/// SWI: takes the software-interrupt exception, returning to the next
/// instruction.
pub fn execute_software_interrupt(cpu: &mut Arm7tdmi, _opcode: u32, fetch_pc: u32) -> (r:
    ExecutionResult)
    requires
        old(cpu)@.valid(),
    ensures
        final(cpu)@ == exception_entry(
            old(cpu)@,
            Exception::SoftwareInterrupt,
            fetch_pc.wrapping_add(4),
        ),
        final(cpu)@.valid(),
        r == ExecutionResult::branched_spec(2),
{
    cpu.enter_exception(Exception::SoftwareInterrupt, fetch_pc.wrapping_add(4));
    ExecutionResult::branched(2)
}

} // verus!
