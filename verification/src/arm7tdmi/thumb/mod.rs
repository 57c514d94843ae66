//! Thumb-state instruction decode and execution, grouped by behavior:
//! formats 1-5 in `alu`, 6-12 in `transfer`, 13-15 in `stack` and 16-19 in
//! `branch`.
pub mod alu;
pub mod branch;
pub mod stack;
pub mod transfer;

use vstd::prelude::*;
use crate::arm7tdmi::psr::{bit_of, with_bit};
use crate::arm7tdmi::arm::{align_pc_spec, ExecutionResult};
use crate::arm7tdmi::{Arm7tdmi, BusInterface, CpuView, PC};

verus! {

/// Bit `i` of a Thumb opcode.
pub open spec fn tbit(opcode: u16, i: u32) -> bool {
    bit_of(opcode as u32, i)
}

pub fn thumb_bit(opcode: u16, i: u32) -> (r: bool)
    requires
        i < 16,
    ensures
        r == tbit(opcode, i),
{
    crate::arm7tdmi::arm::opcode_bit(opcode as u32, i)
}

/// A three-bit register field of a Thumb opcode starting at bit `shift`.
pub open spec fn low_reg(opcode: u16, shift: u32) -> u8 {
    (((opcode as u32) >> shift) & 7) as u8
}

pub fn low_reg_at(opcode: u16, shift: u32) -> (r: u8)
    requires
        shift < 16,
    ensures
        r == low_reg(opcode, shift),
        r < 8,
{
    let v = opcode as u32;
    assert((v >> shift) & 7 < 8) by (bit_vector);
    ((v >> shift) & 7) as u8
}

/// The PC value a Thumb instruction observes: its address plus 4.
pub open spec fn visible_pc_spec(fetch_pc: u32) -> u32 {
    fetch_pc.wrapping_add(4)
}

pub fn visible_pc(fetch_pc: u32) -> (r: u32)
    ensures
        r == visible_pc_spec(fetch_pc),
{
    fetch_pc.wrapping_add(4)
}

/// The visible PC with bit 1 cleared (word aligned), for PC-relative loads.
pub open spec fn aligned_visible_pc_spec(fetch_pc: u32) -> u32 {
    visible_pc_spec(fetch_pc) & !2u32
}

pub fn aligned_visible_pc(fetch_pc: u32) -> (r: u32)
    ensures
        r == aligned_visible_pc_spec(fetch_pc),
{
    visible_pc(fetch_pc) & !2u32
}

/// A Thumb operand register: R15 reads as the visible PC.
pub open spec fn exec_reg_spec(s: CpuView, reg: u8, fetch_pc: u32) -> u32 {
    if reg == PC {
        visible_pc_spec(fetch_pc)
    } else {
        s.reg(reg)
    }
}

pub fn read_exec_reg(cpu: &Arm7tdmi, reg: u8, fetch_pc: u32) -> (r: u32)
    requires
        cpu@.valid(),
        reg < 16,
    ensures
        r == exec_reg_spec(cpu@, reg, fetch_pc),
{
    if reg == PC {
        visible_pc(fetch_pc)
    } else {
        cpu.read_reg(reg)
    }
}

/// Writing a Thumb destination register: R15 takes the value with bit 0
/// cleared and counts as a branch.
pub open spec fn write_exec_spec(s: CpuView, reg: u8, value: u32) -> (CpuView, bool) {
    if reg == PC {
        (s.with_reg(PC, value & !1u32), true)
    } else {
        (s.with_reg(reg, value), false)
    }
}

pub fn write_exec_reg(cpu: &mut Arm7tdmi, reg: u8, value: u32) -> (r: bool)
    requires
        old(cpu)@.valid(),
        reg < 16,
    ensures
        (final(cpu)@, r) == write_exec_spec(old(cpu)@, reg, value),
        final(cpu)@.valid(),
{
    if reg == PC {
        cpu.set_pc(value & !1u32);
        true
    } else {
        cpu.write_reg(reg, value);
        false
    }
}

pub fn branch_to(cpu: &mut Arm7tdmi, target: u32, thumb: bool) -> (r: ExecutionResult)
    requires
        old(cpu)@.valid(),
    ensures
        final(cpu)@ == crate::arm7tdmi::arm::branch_spec(old(cpu)@, target, thumb),
        final(cpu)@.valid(),
        r == ExecutionResult::branched_spec(2),
{
    crate::arm7tdmi::arm::branch_to(cpu, target, thumb)
}

/// Load the word containing `address` (the low two address bits ignored),
/// returning it and its rotation for an unaligned address.
pub fn load_word<B: BusInterface>(bus: &mut B, address: u32) -> (r: (u32, u32))
    ensures
        B::word_read(old(bus), final(bus), address & !3u32, r.0),
        r.1 == crate::arm7tdmi::arm::load_word_spec(r.0, address),
{
    let raw = bus.read_32(address & !3u32);
    (raw, crate::arm7tdmi::arm::rotate_loaded_word(raw, address))
}

/// Store `value` to the word containing `address` (the low two address
/// bits ignored).
pub fn store_word<B: BusInterface>(bus: &mut B, address: u32, value: u32)
    ensures
        B::word_written(old(bus), final(bus), address & !3u32, value),
{
    bus.write_32(address & !3u32, value);
}

/// Load the halfword containing `address` (the low address bit ignored),
/// returning it and its rotation for an odd address.
pub fn load_halfword<B: BusInterface>(bus: &mut B, address: u32) -> (r: (u16, u32))
    ensures
        B::halfword_read(old(bus), final(bus), address & !1u32, r.0),
        r.1 == crate::arm7tdmi::arm::load_halfword_spec(r.0, address),
{
    let raw = bus.read_16(address & !1u32);
    (raw, crate::arm7tdmi::arm::rotate_loaded_halfword(raw, address))
}

/// Store `value` to the halfword containing `address` (the low address
/// bit ignored).
pub fn store_halfword<B: BusInterface>(bus: &mut B, address: u32, value: u16)
    ensures
        B::halfword_written(old(bus), final(bus), address & !1u32, value),
{
    bus.write_16(address & !1u32, value);
}

} // verus!

verus! {

/// The Thumb format group the decoder picks, testing in this order.
pub enum ThumbClass {
    Alu,
    Transfer,
    Stack,
    Branch,
    Unsupported,
}

pub open spec fn thumb_class(opcode: u16) -> ThumbClass {
    if alu::is_alu_spec(opcode) {
        ThumbClass::Alu
    } else if transfer::is_transfer_spec(opcode) {
        ThumbClass::Transfer
    } else if stack::is_stack_spec(opcode) {
        ThumbClass::Stack
    } else if branch::is_branch_spec(opcode) {
        ThumbClass::Branch
    } else {
        ThumbClass::Unsupported
    }
}

/// What executing Thumb `opcode`, fetched from `fetch_pc`, does: from
/// state `s` to state `t` and from bus `b` to bus `b2`, with result `r`;
/// each format is described by its own specification, the memory formats
/// by their bus accesses too (`thumb_transfer_bus`, `thumb_stack_bus`).
pub open spec fn thumb_executed<B: BusInterface>(
    s: CpuView,
    b: B,
    opcode: u16,
    fetch_pc: u32,
    t: CpuView,
    b2: B,
    r: ExecutionResult,
) -> bool {
    &&& t.valid()
    &&& r.cycles >= 1
    &&& match thumb_class(opcode) {
        ThumbClass::Alu => (t, r) == alu::thumb_alu_spec(s, opcode, fetch_pc) && b2 == b,
        ThumbClass::Transfer => exists|raw: u32|
            #[trigger] transfer::thumb_transfer_spec(s, opcode, fetch_pc, raw) == (t, r)
                && transfer::thumb_transfer_bus(s, opcode, fetch_pc, raw, b, b2),
        ThumbClass::Stack => exists|vals: Seq<u32>, raws: Seq<u32>|
            #[trigger] stack::thumb_stack_spec(s, opcode, vals) == (t, r) && #[trigger] stack::thumb_stack_bus(
                s,
                opcode,
                fetch_pc,
                vals,
                raws,
                b,
                b2,
            ),
        ThumbClass::Branch => (t, r) == branch::thumb_branch_spec(s, opcode, fetch_pc) && b2 == b,
        ThumbClass::Unsupported => false,
    }
}

/// Executes one Thumb instruction fetched from `fetch_pc`, dispatching on
/// its format group; opcodes outside every group must not be passed.
pub fn execute<B: BusInterface>(cpu: &mut Arm7tdmi, bus: &mut B, opcode: u16, fetch_pc: u32) -> (r:
    ExecutionResult)
    requires
        old(cpu)@.valid(),
        !(thumb_class(opcode) is Unsupported),
    ensures
        thumb_executed(old(cpu)@, *old(bus), opcode, fetch_pc, final(cpu)@, *final(bus), r),
{
    if alu::is_alu(opcode) {
        alu::execute(cpu, opcode, fetch_pc)
    } else if transfer::is_transfer(opcode) {
        transfer::execute(cpu, bus, opcode, fetch_pc)
    } else if stack::is_stack(opcode) {
        stack::execute(cpu, bus, opcode, fetch_pc)
    } else {
        branch::execute(cpu, opcode, fetch_pc)
    }
}

pub fn is_supported(opcode: u16) -> (r: bool)
    ensures
        r == !(thumb_class(opcode) is Unsupported),
{
    alu::is_alu(opcode) || transfer::is_transfer(opcode) || stack::is_stack(opcode)
        || branch::is_branch(opcode)
}

} // verus!
