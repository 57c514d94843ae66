//! ARM-state instruction decode and execution.
pub mod block_transfer;
pub mod branch;
pub mod data_proc;
pub mod data_swap;
pub mod halfword_transfer;
pub mod multiply;
pub mod psr_transfer;
pub mod transfer;

use vstd::prelude::*;
use crate::arm7tdmi::alu::{add_with_carry_spec, lemma_not_is_complement, lemma_subtract_via_add_with_carry, signed32};
use crate::arm7tdmi::psr::{bit_of, lemma_flag_bits, lemma_sign_bit, with_bit, with_nzcv, Mode};
use crate::arm7tdmi::{accesses_done, Arm7tdmi, BusInterface, CpuView, Psr, PC};

verus! {

/// Cycles spent by an instruction and whether it wrote the PC (so the
/// caller must not advance it).
#[derive(Debug, Clone, Copy, PartialEq, Eq, Structural)]
pub struct ExecutionResult {
    pub cycles: u32,
    pub wrote_pc: bool,
}

impl ExecutionResult {
    pub fn sequential(cycles: u32) -> (r: ExecutionResult)
        ensures
            r == (ExecutionResult { cycles, wrote_pc: false }),
    {
        ExecutionResult { cycles, wrote_pc: false }
    }

    pub fn branched(cycles: u32) -> (r: ExecutionResult)
        ensures
            r == (ExecutionResult { cycles, wrote_pc: true }),
    {
        ExecutionResult { cycles, wrote_pc: true }
    }
}

/// The ARM condition code `cond` (low four bits) evaluated against the NZCV
/// flags of `cpsr`.
pub open spec fn condition_spec(cpsr: u32, cond: u8) -> bool {
    let n = bit_of(cpsr, 31);
    let z = bit_of(cpsr, 30);
    let c = bit_of(cpsr, 29);
    let v = bit_of(cpsr, 28);
    let code = cond & 0xf;
    if code == 0x0 {
        z
    } else if code == 0x1 {
        !z
    } else if code == 0x2 {
        c
    } else if code == 0x3 {
        !c
    } else if code == 0x4 {
        n
    } else if code == 0x5 {
        !n
    } else if code == 0x6 {
        v
    } else if code == 0x7 {
        !v
    } else if code == 0x8 {
        c && !z
    } else if code == 0x9 {
        !c || z
    } else if code == 0xa {
        n == v
    } else if code == 0xb {
        n != v
    } else if code == 0xc {
        !z && n == v
    } else if code == 0xd {
        z || n != v
    } else {
        code == 0xe
    }
}

pub fn condition_passed(cpsr: Psr, cond: u8) -> (r: bool)
    ensures
        r == condition_spec(cpsr@, cond),
{
    let n = cpsr.negative();
    let z = cpsr.zero();
    let c = cpsr.carry();
    let v = cpsr.overflow();
    let code = cond & 0xf;
    if code == 0x0 {
        z
    } else if code == 0x1 {
        !z
    } else if code == 0x2 {
        c
    } else if code == 0x3 {
        !c
    } else if code == 0x4 {
        n
    } else if code == 0x5 {
        !n
    } else if code == 0x6 {
        v
    } else if code == 0x7 {
        !v
    } else if code == 0x8 {
        c && !z
    } else if code == 0x9 {
        !c || z
    } else if code == 0xa {
        n == v
    } else if code == 0xb {
        n != v
    } else if code == 0xc {
        !z && n == v
    } else if code == 0xd {
        z || n != v
    } else {
        code == 0xe
    }
}

/// After a compare of `a` with `b` has set the flags (N and Z from `a - b`,
/// C when nothing is borrowed, V on signed overflow), each condition code
/// means the comparison it names: EQ and NE equality, CS, CC, HI and LS the
/// unsigned order, GE, LT, GT and LE the signed order, MI and PL the sign of
/// the difference; AL always holds and the last code never does.
#[verifier::spinoff_prover]
#[verifier::rlimit(40)]
pub proof fn lemma_compare_conditions(cpsr: u32, a: u32, b: u32, cond: u8)
    ensures
        ({
            let r = add_with_carry_spec(a, !b, true);
            let p = with_nzcv(cpsr, r.value, r.carry_out, r.overflow);
            let code = cond & 0xf;
            let diff: int = if a >= b { a - b } else { a - b + 0x1_0000_0000 };
            &&& code == 0x0 ==> (condition_spec(p, cond) <==> a == b)
            &&& code == 0x1 ==> (condition_spec(p, cond) <==> a != b)
            &&& code == 0x2 ==> (condition_spec(p, cond) <==> a >= b)
            &&& code == 0x3 ==> (condition_spec(p, cond) <==> a < b)
            &&& code == 0x4 ==> (condition_spec(p, cond) <==> diff >= 0x8000_0000)
            &&& code == 0x5 ==> (condition_spec(p, cond) <==> diff < 0x8000_0000)
            &&& code == 0x8 ==> (condition_spec(p, cond) <==> a > b)
            &&& code == 0x9 ==> (condition_spec(p, cond) <==> a <= b)
            &&& code == 0xa ==> (condition_spec(p, cond) <==> signed32(a) >= signed32(b))
            &&& code == 0xb ==> (condition_spec(p, cond) <==> signed32(a) < signed32(b))
            &&& code == 0xc ==> (condition_spec(p, cond) <==> signed32(a) > signed32(b))
            &&& code == 0xd ==> (condition_spec(p, cond) <==> signed32(a) <= signed32(b))
            &&& code == 0xe ==> condition_spec(p, cond)
            &&& code == 0xf ==> !condition_spec(p, cond)
        }),
{
    let r = add_with_carry_spec(a, !b, true);
    lemma_subtract_via_add_with_carry(a, b);
    lemma_not_is_complement(b);
    lemma_flag_bits(cpsr, r.value, r.carry_out, r.overflow);
    lemma_sign_bit(r.value);
    assert(signed32(!b) == -signed32(b) - 1);
    assert(r.value == (if a >= b { a - b } else { a - b + 0x1_0000_0000 }));
}

/// Condition codes come in complementary pairs: for every flag setting, an
/// odd code holds exactly when the even code before it does not (AL, which
/// always holds, pairs with the code that never does).
pub proof fn lemma_condition_pairs(cpsr: u32, even: u8, odd: u8)
    requires
        (even & 0xf) <= 0xe,
        (even & 0xf) % 2 == 0,
        (odd & 0xf) == (even & 0xf) + 1,
    ensures
        condition_spec(cpsr, odd) == !condition_spec(cpsr, even),
{
}

/// The PC value an ARM instruction observes: its address plus 8.
pub open spec fn visible_pc_spec(fetch_pc: u32) -> u32 {
    fetch_pc.wrapping_add(8)
}

pub fn visible_pc(fetch_pc: u32) -> (r: u32)
    ensures
        r == visible_pc_spec(fetch_pc),
{
    fetch_pc.wrapping_add(8)
}

/// An ARM operand register: R15 reads as the visible PC.
pub open spec fn exec_reg_spec(s: CpuView, reg: u8, fetch_pc: u32) -> u32 {
    if reg == PC {
        visible_pc_spec(fetch_pc)
    } else {
        s.reg(reg)
    }
}

pub fn read_exec_reg(cpu: &Arm7tdmi, reg: u8, fetch_pc: u32) -> (r: u32)
    requires
        cpu@.valid(),
        reg < 16,
    ensures
        r == exec_reg_spec(cpu@, reg, fetch_pc),
{
    if reg == PC {
        visible_pc(fetch_pc)
    } else {
        cpu.read_reg(reg)
    }
}

/// `value` aligned for the current instruction set: halfword in Thumb state,
/// word in ARM state.
pub open spec fn align_pc_spec(thumb: bool, value: u32) -> u32 {
    if thumb {
        value & !1u32
    } else {
        value & !3u32
    }
}

/// Writing an ARM destination register: R15 takes the aligned value and
/// counts as a branch.
pub open spec fn write_exec_spec(s: CpuView, reg: u8, value: u32) -> (CpuView, bool) {
    if reg == PC {
        (s.with_reg(PC, align_pc_spec(s.thumb(), value)), true)
    } else {
        (s.with_reg(reg, value), false)
    }
}

pub fn write_exec_reg(cpu: &mut Arm7tdmi, reg: u8, value: u32) -> (r: bool)
    requires
        old(cpu)@.valid(),
        reg < 16,
    ensures
        (final(cpu)@, r) == write_exec_spec(old(cpu)@, reg, value),
        final(cpu)@.valid(),
{
    if reg == PC {
        let aligned = if cpu.is_thumb() {
            value & !1u32
        } else {
            value & !3u32
        };
        cpu.set_pc(aligned);
        true
    } else {
        cpu.write_reg(reg, value);
        false
    }
}

/// A branch: the Thumb bit takes `thumb` and the PC the aligned target.
pub open spec fn branch_spec(s: CpuView, target: u32, thumb: bool) -> CpuView {
    s.with_cpsr(with_bit(s.cpsr, 5, thumb)).with_reg(PC, align_pc_spec(thumb, target))
}

pub fn branch_to(cpu: &mut Arm7tdmi, target: u32, thumb: bool) -> (r: ExecutionResult)
    requires
        old(cpu)@.valid(),
    ensures
        final(cpu)@ == branch_spec(old(cpu)@, target, thumb),
        final(cpu)@.valid(),
        r == ExecutionResult::branched_spec(2),
{
    cpu.set_thumb(thumb);
    let aligned = if thumb {
        target & !1u32
    } else {
        target & !3u32
    };
    cpu.set_pc(aligned);
    ExecutionResult::branched(2)
}

impl ExecutionResult {
    pub open spec fn branched_spec(cycles: u32) -> ExecutionResult {
        ExecutionResult { cycles, wrote_pc: true }
    }

    pub open spec fn sequential_spec(cycles: u32) -> ExecutionResult {
        ExecutionResult { cycles, wrote_pc: false }
    }
}

/// The mode whose bank user-bank transfers address: System stays System,
/// anything else uses User.
pub open spec fn user_bank_mode_spec(current: Mode) -> Mode {
    if current is System {
        Mode::System
    } else {
        Mode::User
    }
}

pub fn user_bank_mode(current: Mode) -> (r: Mode)
    ensures
        r == user_bank_mode_spec(current),
{
    match current {
        Mode::System => Mode::System,
        _ => Mode::User,
    }
}

/// Four-bit register field of an opcode starting at bit `shift`.
pub open spec fn reg_field(opcode: u32, shift: u32) -> u8 {
    ((opcode >> shift) & 0xf) as u8
}

/// A register field is below 16 (its low three bits below 8); the
/// operand-2 fields of a data-processing opcode are arithmetic on it: the
/// 8-bit immediate, its 4-bit rotation, the shift type and the 5-bit shift
/// amount.
pub proof fn lemma_reg_field(opcode: u32, shift: u32)
    ensures
        (opcode >> shift) & 0xf < 16,
        reg_field(opcode, shift) < 16,
        (opcode >> shift) & 7 < 8,
        opcode & 0xff == opcode % 256,
        (opcode >> 8) & 0xf == (opcode / 256) % 16,
        (opcode >> 5) & 0x3 == (opcode / 32) % 4,
        (opcode >> 7) & 0x1f == (opcode / 128) % 32,
{
    assert((opcode >> shift) & 0xf < 16 && (opcode >> shift) & 7 < 8 && opcode & 0xff == opcode % 256 && (
    opcode >> 8) & 0xf == (opcode / 256) % 16 && (opcode >> 5) & 0x3 == (opcode / 32) % 4 && (opcode >> 7)
        & 0x1f == (opcode / 128) % 32) by (bit_vector);
}

pub fn reg_at(opcode: u32, shift: u32) -> (r: u8)
    requires
        shift < 32,
    ensures
        r == reg_field(opcode, shift),
        r < 16,
{
    proof {
        lemma_reg_field(opcode, shift);
    }
    ((opcode >> shift) & 0xf) as u8
}

/// Bit `i` of an opcode as a flag.
pub fn opcode_bit(opcode: u32, i: u32) -> (r: bool)
    requires
        i < 32,
    ensures
        r == bit_of(opcode, i),
{
    assert((((opcode >> i) & 1) != 0) == ((opcode >> i) & 1 == 1)) by (bit_vector);
    ((opcode >> i) & 1) != 0
}

} // verus!

verus! {

/// A word loaded from `address & !3` and rotated so that the addressed byte
/// lands in bits 0-7 (what an unaligned word load returns).
pub open spec fn load_word_spec(raw: u32, address: u32) -> u32 {
    crate::arm7tdmi::arm::data_proc::ror_any(raw, ((address & 3) * 8) as u32)
}

pub fn rotate_loaded_word(raw: u32, address: u32) -> (r: u32)
    ensures
        r == load_word_spec(raw, address),
{
    assert(address & 3 < 4) by (bit_vector);
    let shift = (address & 3) * 8;
    if shift == 0 {
        raw
    } else {
        crate::arm7tdmi::alu::rotate_right(raw, shift)
    }
}

/// A halfword loaded from `address & !1`, rotated by eight bits when the
/// address is odd.
pub open spec fn load_halfword_spec(raw: u16, address: u32) -> u32 {
    if address & 1 == 0 {
        raw as u32
    } else {
        crate::arm7tdmi::alu::rotate_right_spec(raw as u32, 8)
    }
}

pub fn rotate_loaded_halfword(raw: u16, address: u32) -> (r: u32)
    ensures
        r == load_halfword_spec(raw, address),
{
    if (address & 1) == 0 {
        raw as u32
    } else {
        crate::arm7tdmi::alu::rotate_right(raw as u32, 8)
    }
}

pub open spec fn sign_extend8_spec(value: u8) -> u32 {
    if value < 0x80 {
        value as u32
    } else {
        (value as u32 + 0xffff_ff00) as u32
    }
}

pub open spec fn sign_extend16_spec(value: u16) -> u32 {
    if value < 0x8000 {
        value as u32
    } else {
        (value as u32 + 0xffff_0000) as u32
    }
}

pub fn sign_extend8(value: u8) -> (r: u32)
    ensures
        r == sign_extend8_spec(value),
{
    if value < 0x80 {
        value as u32
    } else {
        value as u32 + 0xffff_ff00
    }
}

pub fn sign_extend16(value: u16) -> (r: u32)
    ensures
        r == sign_extend16_spec(value),
{
    if value < 0x8000 {
        value as u32
    } else {
        value as u32 + 0xffff_0000
    }
}

/// Number of set bits among the low `n` bits of `x`.
pub open spec fn popcount_spec(x: u32, n: nat) -> nat
    decreases n,
{
    if n == 0 {
        0
    } else {
        popcount_spec(x, (n - 1) as nat) + if bit_of(x, (n - 1) as u32) {
            1nat
        } else {
            0nat
        }
    }
}

pub proof fn lemma_popcount_bound(x: u32, n: nat)
    ensures
        popcount_spec(x, n) <= n,
    decreases n,
{
    if n > 0 {
        lemma_popcount_bound(x, (n - 1) as nat);
    }
}

/// Number of set bits among the low `n` bits of `x`.
pub fn popcount(x: u32, n: u32) -> (r: u32)
    requires
        n <= 32,
    ensures
        r == popcount_spec(x, n as nat),
        r <= n,
{
    let mut count: u32 = 0;
    let mut i: u32 = 0;
    while i < n
        invariant
            i <= n <= 32,
            count == popcount_spec(x, i as nat),
            count <= i,
        decreases n - i,
    {
        if opcode_bit(x, i) {
            count = count + 1;
        }
        i = i + 1;
    }
    count
}

} // verus!

verus! {

/// The instruction class the ARM decoder picks, testing the patterns in
/// this order.
pub enum ArmClass {
    BranchExchange,
    MultiplyLong,
    Multiply,
    Swap,
    HalfwordTransfer,
    Mrs,
    Msr,
    DataProcessing,
    SingleTransfer,
    BlockTransfer,
    Branch,
    SoftwareInterrupt,
    Unsupported,
}

pub open spec fn arm_class(opcode: u32) -> ArmClass {
    if branch::is_bx_spec(opcode) {
        ArmClass::BranchExchange
    } else if multiply::is_multiply_long_spec(opcode) {
        ArmClass::MultiplyLong
    } else if multiply::is_multiply_spec(opcode) {
        ArmClass::Multiply
    } else if data_swap::is_data_swap_spec(opcode) {
        ArmClass::Swap
    } else if halfword_transfer::is_halfword_transfer_spec(opcode) {
        ArmClass::HalfwordTransfer
    } else if psr_transfer::is_mrs_spec(opcode) {
        ArmClass::Mrs
    } else if psr_transfer::is_msr_spec(opcode) {
        ArmClass::Msr
    } else if data_proc::is_data_processing_spec(opcode) {
        ArmClass::DataProcessing
    } else if transfer::is_single_data_transfer_spec(opcode) {
        ArmClass::SingleTransfer
    } else if block_transfer::is_block_data_transfer_spec(opcode) {
        ArmClass::BlockTransfer
    } else if branch::is_branch_spec(opcode) {
        ArmClass::Branch
    } else if branch::is_software_interrupt_spec(opcode) {
        ArmClass::SoftwareInterrupt
    } else {
        ArmClass::Unsupported
    }
}

/// Whether the condition field of an ARM opcode passes under `cpsr`.
pub open spec fn arm_condition(cpsr: u32, opcode: u32) -> bool {
    condition_spec(cpsr, (opcode >> 28u32) as u8)
}

/// What executing `opcode`, fetched from `fetch_pc`, does: from state `s`
/// to state `t` and from bus `b` to bus `b2`, with result `r`. A failed
/// condition does nothing, to the core or the bus; each instruction class is
/// described by its own specification, the memory instructions by their
/// bus accesses too, the loaded values being what those reads returned.
pub open spec fn arm_executed<B: BusInterface>(
    s: CpuView,
    b: B,
    opcode: u32,
    fetch_pc: u32,
    t: CpuView,
    b2: B,
    r: ExecutionResult,
) -> bool {
    &&& t.valid()
    &&& r.cycles >= 1
    &&& !arm_condition(s.cpsr, opcode) ==> t == s && r == ExecutionResult::sequential_spec(1) && b2 == b
    &&& arm_condition(s.cpsr, opcode) ==> match arm_class(opcode) {
        ArmClass::BranchExchange => t == branch::bx_spec(s, opcode, fetch_pc)
            && r == ExecutionResult::branched_spec(2) && b2 == b,
        ArmClass::MultiplyLong => t == multiply::multiply_long_spec(
            s,
            opcode,
            fetch_pc,
        ) && r == ExecutionResult::sequential_spec(3) && b2 == b,
        ArmClass::Multiply => (t, r.wrote_pc) == multiply::multiply_spec(
            s,
            opcode,
            fetch_pc,
        ) && r.cycles == 2 && b2 == b,
        ArmClass::Mrs => (t, r.wrote_pc) == psr_transfer::mrs_spec(s, opcode)
            && r.cycles == 1 && b2 == b,
        ArmClass::Msr => t == psr_transfer::msr_spec(s, opcode) && r
            == ExecutionResult::sequential_spec(1) && b2 == b,
        ArmClass::DataProcessing => (t, r.wrote_pc)
            == data_proc::data_processing_spec(s, opcode, fetch_pc) && r.cycles == 1 && b2 == b,
        ArmClass::Branch => t == branch::branch_link_spec(s, opcode, fetch_pc)
            && r == ExecutionResult::branched_spec(2) && b2 == b,
        ArmClass::SoftwareInterrupt => t == crate::arm7tdmi::exception::exception_entry(
            s,
            crate::arm7tdmi::exception::Exception::SoftwareInterrupt,
            fetch_pc.wrapping_add(4),
        ) && r == ExecutionResult::branched_spec(2) && b2 == b,
        ArmClass::Swap => r.cycles == 4 && exists|raw: u32|
            #[trigger] data_swap::swap_spec(s, opcode, fetch_pc, raw) == (t, r.wrote_pc)
                && accesses_done(b, b2, data_swap::swap_access(s, opcode, fetch_pc, raw)),
        ArmClass::HalfwordTransfer => r.cycles == (if bit_of(opcode, 20) { 3u32 } else { 2u32 }) && exists|raw: u32|
            #[trigger] halfword_transfer::halfword_transfer_spec(s, opcode, fetch_pc, raw)
                == (t, r.wrote_pc) && accesses_done(
                b,
                b2,
                halfword_transfer::halfword_transfer_access(s, opcode, fetch_pc, raw),
            ),
        ArmClass::SingleTransfer => r.cycles == (if bit_of(opcode, 20) { 3u32 } else { 2u32 }) && exists|raw: u32|
            #[trigger] transfer::single_transfer_spec(s, opcode, fetch_pc, raw) == (t, r.wrote_pc)
                && accesses_done(b, b2, transfer::single_transfer_access(s, opcode, fetch_pc, raw)),
        ArmClass::BlockTransfer => {
            &&& block_transfer::block_count(opcode) == 0 ==> t == s && r
                == ExecutionResult::sequential_spec(1) && b2 == b
            &&& block_transfer::block_count(opcode) > 0 ==> r.cycles == block_transfer::block_count(opcode) + 1
            &&& block_transfer::block_count(opcode) > 0 && !bit_of(opcode, 20) ==> t
                == block_transfer::block_store_spec(s, opcode, fetch_pc) && !r.wrote_pc && accesses_done(
                b,
                b2,
                block_transfer::block_access(s, opcode, fetch_pc, Seq::empty()),
            )
            &&& block_transfer::block_count(opcode) > 0 && bit_of(opcode, 20) ==> exists|vals: Seq<u32>|
                vals.len() == block_transfer::block_count(opcode) && #[trigger] block_transfer::block_load_spec(
                    s,
                    opcode,
                    fetch_pc,
                    vals,
                ) == (t, r.wrote_pc) && accesses_done(
                    b,
                    b2,
                    block_transfer::block_access(s, opcode, fetch_pc, vals),
                )
        },
        ArmClass::Unsupported => false,
    }
}

/// Executes one ARM instruction fetched from `fetch_pc`. An instruction
/// whose condition fails costs one cycle and changes nothing; otherwise the
/// class decoder dispatches to the executor whose contract gives the result.
/// Coprocessor instructions (no executor) must not be passed when their
/// condition holds.
pub fn execute<B: BusInterface>(cpu: &mut Arm7tdmi, bus: &mut B, opcode: u32, fetch_pc: u32) -> (r:
    ExecutionResult)
    requires
        old(cpu)@.valid(),
        arm_condition(old(cpu)@.cpsr, opcode) ==> !(arm_class(opcode) is Unsupported),
    ensures
        arm_executed(old(cpu)@, *old(bus), opcode, fetch_pc, final(cpu)@, *final(bus), r),
{
    let cond = (opcode >> 28u32) as u8;
    if !condition_passed(cpu.cpsr(), cond) {
        return ExecutionResult::sequential(1);
    }
    if branch::is_bx(opcode) {
        branch::execute_bx(cpu, opcode, fetch_pc)
    } else if multiply::is_multiply_long(opcode) {
        multiply::execute_multiply_long(cpu, opcode, fetch_pc)
    } else if multiply::is_multiply(opcode) {
        multiply::execute_multiply(cpu, opcode, fetch_pc)
    } else if data_swap::is_data_swap(opcode) {
        data_swap::execute(cpu, bus, opcode, fetch_pc)
    } else if halfword_transfer::is_halfword_transfer(opcode) {
        halfword_transfer::execute(cpu, bus, opcode, fetch_pc)
    } else if psr_transfer::is_mrs(opcode) {
        psr_transfer::execute_mrs(cpu, opcode)
    } else if psr_transfer::is_msr(opcode) {
        psr_transfer::execute_msr(cpu, opcode)
    } else if data_proc::is_data_processing(opcode) {
        data_proc::execute(cpu, opcode, fetch_pc)
    } else if transfer::is_single_data_transfer(opcode) {
        transfer::execute(cpu, bus, opcode, fetch_pc)
    } else if block_transfer::is_block_data_transfer(opcode) {
        block_transfer::execute(cpu, bus, opcode, fetch_pc)
    } else if branch::is_branch(opcode) {
        branch::execute_branch(cpu, opcode, fetch_pc)
    } else {
        branch::execute_software_interrupt(cpu, opcode, fetch_pc)
    }
}

} // verus!

verus! {

/// Whether the ARM decoder can run `opcode` under `cpsr`: its condition
/// fails, or some class matches.
pub fn is_executable(cpsr: Psr, opcode: u32) -> (r: bool)
    ensures
        r == (!arm_condition(cpsr@, opcode) || !(arm_class(opcode) is Unsupported)),
{
    let cond = (opcode >> 28u32) as u8;
    !condition_passed(cpsr, cond) || branch::is_bx(opcode) || multiply::is_multiply_long(opcode)
        || multiply::is_multiply(opcode) || data_swap::is_data_swap(opcode)
        || halfword_transfer::is_halfword_transfer(opcode) || psr_transfer::is_mrs(opcode)
        || psr_transfer::is_msr(opcode) || data_proc::is_data_processing(opcode)
        || transfer::is_single_data_transfer(opcode)
        || block_transfer::is_block_data_transfer(opcode) || branch::is_branch(opcode)
        || branch::is_software_interrupt(opcode)
}

} // verus!
