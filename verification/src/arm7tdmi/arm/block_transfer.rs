//! ARM block data transfers: LDM and STM.
use vstd::prelude::*;
use crate::arm7tdmi::psr::{bit_of, Mode};
use crate::arm7tdmi::arm::{
    exec_reg_spec, opcode_bit, popcount, popcount_spec, read_exec_reg, reg_at, reg_field,
    user_bank_mode, user_bank_mode_spec, write_exec_reg, write_exec_spec, ExecutionResult,
};
use crate::arm7tdmi::{
    accesses_done, lemma_accesses_none, lemma_accesses_push, word_at, Arm7tdmi, BusAccess,
    BusInterface, CpuView, PC,
};

verus! {

pub open spec fn is_block_data_transfer_spec(opcode: u32) -> bool {
    opcode & 0x0e00_0000 == 0x0800_0000
}

pub fn is_block_data_transfer(opcode: u32) -> (r: bool)
    ensures
        r == is_block_data_transfer_spec(opcode),
{
    (opcode & 0x0e00_0000) == 0x0800_0000
}

/// Number of registers in the list.
pub open spec fn block_count(opcode: u32) -> nat {
    popcount_spec(opcode & 0xffff, 16)
}

/// The base after the transfer: Rn plus or minus four bytes per register.
pub open spec fn block_final_base(s: CpuView, opcode: u32, fetch_pc: u32) -> u32 {
    let base = exec_reg_spec(s, reg_field(opcode, 16), fetch_pc);
    let bytes = (block_count(opcode) * 4) as u32;
    if bit_of(opcode, 23) {
        base.wrapping_add(bytes)
    } else {
        base.wrapping_sub(bytes)
    }
}

/// Whether the transfer addresses the User bank (S set, and not a load that
/// includes R15).
pub open spec fn block_user_bank(opcode: u32) -> bool {
    bit_of(opcode, 22) && (!bit_of(opcode, 20) || !bit_of(opcode & 0xffff, 15))
}

/// The registers loaded from the first `n` list positions: the k-th listed
/// register takes `vals[k]`, in the User bank or as an ordinary destination.
pub open spec fn ldm_fold(
    s: CpuView,
    reglist: u32,
    user: bool,
    bank: Mode,
    vals: Seq<u32>,
    n: nat,
) -> (CpuView, bool)
    decreases n,
{
    if n == 0 {
        (s, false)
    } else {
        let (t, wrote) = ldm_fold(s, reglist, user, bank, vals, (n - 1) as nat);
        let reg = (n - 1) as u8;
        if bit_of(reglist, (n - 1) as u32) {
            let v = vals[popcount_spec(reglist, (n - 1) as nat) as int];
            if user {
                (t.with_reg_in(bank, reg, v), wrote)
            } else {
                let (t2, w2) = write_exec_spec(t, reg, v);
                (t2, wrote || w2)
            }
        } else {
            (t, wrote)
        }
    }
}

/// The state after LDM whose successive bus reads returned `vals`: the
/// listed registers take them in ascending order, then with S and R15 in the
/// list the CPSR is restored from the SPSR, then with W the base is written.
pub open spec fn block_load_spec(s: CpuView, opcode: u32, fetch_pc: u32, vals: Seq<u32>) -> (CpuView, bool) {
    let reglist = opcode & 0xffff;
    let (t, wrote) = ldm_fold(
        s,
        reglist,
        block_user_bank(opcode),
        user_bank_mode_spec(s.mode()),
        vals,
        16,
    );
    let t2 = if bit_of(opcode, 22) && bit_of(reglist, 15) {
        t.restore_cpsr()
    } else {
        t
    };
    let t3 = if bit_of(opcode, 21) {
        t2.with_reg(reg_field(opcode, 16), block_final_base(s, opcode, fetch_pc))
    } else {
        t2
    };
    (t3, wrote)
}

/// The state after STM: only the base write-back (with W) changes the CPU.
pub open spec fn block_store_spec(s: CpuView, opcode: u32, fetch_pc: u32) -> CpuView {
    if bit_of(opcode, 21) {
        s.with_reg(reg_field(opcode, 16), block_final_base(s, opcode, fetch_pc))
    } else {
        s
    }
}

/// The lowest address the transfer touches: the base for increment-after,
/// the base plus four for increment-before, and the base less the list's
/// size (plus four for decrement-after) when decrementing.
pub open spec fn block_start(s: CpuView, opcode: u32, fetch_pc: u32) -> u32 {
    let base = exec_reg_spec(s, reg_field(opcode, 16), fetch_pc);
    let count = block_count(opcode);
    if bit_of(opcode, 23) && !bit_of(opcode, 24) {
        base
    } else if bit_of(opcode, 23) {
        base.wrapping_add(4)
    } else if !bit_of(opcode, 24) {
        base.wrapping_sub(((count - 1) * 4) as u32)
    } else {
        base.wrapping_sub((count * 4) as u32)
    }
}

/// LDM's reads for the listed registers among the first `n`: the k-th
/// listed register reads the word `k` words above `start`, which returned
/// `vals[k]`.
pub open spec fn block_reads(reglist: u32, start: u32, vals: Seq<u32>, n: nat) -> Seq<BusAccess>
    decreases n,
{
    if n == 0 {
        Seq::empty()
    } else {
        let prev = block_reads(reglist, start, vals, (n - 1) as nat);
        if bit_of(reglist, (n - 1) as u32) {
            let k = popcount_spec(reglist, (n - 1) as nat) as int;
            prev.push(BusAccess::Read32(word_at(start, k), vals[k]))
        } else {
            prev
        }
    }
}

/// The value STM stores for `reg`: its User-bank copy when the transfer
/// addresses that bank, R15 as the address plus 12, else the register.
pub open spec fn block_store_value(s: CpuView, reg: u8, user: bool, bank: Mode, fetch_pc: u32) -> u32 {
    if user && reg != PC {
        s.reg_in(bank, reg)
    } else if reg == PC {
        fetch_pc.wrapping_add(12)
    } else {
        s.reg(reg)
    }
}

/// STM's writes for the listed registers among the first `n`: the k-th
/// listed register goes to the word `k` words above `start`.
pub open spec fn block_writes(
    s: CpuView,
    reglist: u32,
    start: u32,
    user: bool,
    bank: Mode,
    fetch_pc: u32,
    n: nat,
) -> Seq<BusAccess>
    decreases n,
{
    if n == 0 {
        Seq::empty()
    } else {
        let prev = block_writes(s, reglist, start, user, bank, fetch_pc, (n - 1) as nat);
        if bit_of(reglist, (n - 1) as u32) {
            let k = popcount_spec(reglist, (n - 1) as nat) as int;
            prev.push(
                BusAccess::Write32(
                    word_at(start, k),
                    block_store_value(s, (n - 1) as u8, user, bank, fetch_pc),
                ),
            )
        } else {
            prev
        }
    }
}

/// The bus accesses of LDM (whose reads returned `vals`) or STM: one word
/// per listed register, lowest register at the lowest address; none for an
/// empty list.
pub open spec fn block_access(s: CpuView, opcode: u32, fetch_pc: u32, vals: Seq<u32>) -> Seq<BusAccess> {
    let reglist = opcode & 0xffff;
    let start = block_start(s, opcode, fetch_pc);
    if block_count(opcode) == 0 {
        Seq::empty()
    } else if bit_of(opcode, 20) {
        block_reads(reglist, start, vals, 16)
    } else {
        block_writes(s, reglist, start, block_user_bank(opcode), user_bank_mode_spec(s.mode()), fetch_pc, 16)
    }
}

proof fn lemma_block_reads_prefix(reglist: u32, start: u32, vals: Seq<u32>, v: u32, n: nat)
    requires
        popcount_spec(reglist, n) <= vals.len(),
    ensures
        block_reads(reglist, start, vals.push(v), n) == block_reads(reglist, start, vals, n),
    decreases n,
{
    if n > 0 {
        crate::arm7tdmi::arm::lemma_popcount_bound(reglist, (n - 1) as nat);
        lemma_block_reads_prefix(reglist, start, vals, v, (n - 1) as nat);
    }
}

proof fn lemma_ldm_fold_prefix(
    s: CpuView,
    reglist: u32,
    user: bool,
    bank: Mode,
    vals: Seq<u32>,
    v: u32,
    n: nat,
)
    requires
        popcount_spec(reglist, n) <= vals.len(),
    ensures
        ldm_fold(s, reglist, user, bank, vals.push(v), n) == ldm_fold(s, reglist, user, bank, vals, n),
    decreases n,
{
    if n > 0 {
        lemma_ldm_fold_prefix(s, reglist, user, bank, vals, v, (n - 1) as nat);
    }
}

proof fn lemma_ldm_fold_valid(s: CpuView, reglist: u32, user: bool, bank: Mode, vals: Seq<u32>, n: nat)
    requires
        s.valid(),
        n <= 16,
    ensures
        ldm_fold(s, reglist, user, bank, vals, n).0.valid(),
        ldm_fold(s, reglist, user, bank, vals, n).0.cpsr == s.cpsr,
        ldm_fold(s, reglist, user, bank, vals, n).0.spsrs == s.spsrs,
    decreases n,
{
    if n > 0 {
        lemma_ldm_fold_valid(s, reglist, user, bank, vals, (n - 1) as nat);
    }
}

/// Executes LDM/STM, making the accesses `block_access` names: `count + 1`
/// cycles, or one cycle doing nothing for an empty list.
pub fn execute<B: BusInterface>(cpu: &mut Arm7tdmi, bus: &mut B, opcode: u32, fetch_pc: u32) -> (r:
    ExecutionResult)
    requires
        old(cpu)@.valid(),
    ensures
        final(cpu)@.valid(),
        block_count(opcode) == 0 ==> final(cpu)@ == old(cpu)@ && r == ExecutionResult::sequential_spec(1)
            && *final(bus) == *old(bus),
        block_count(opcode) > 0 ==> r.cycles == block_count(opcode) + 1,
        block_count(opcode) > 0 && !bit_of(opcode, 20) ==> final(cpu)@ == block_store_spec(
            old(cpu)@,
            opcode,
            fetch_pc,
        ) && !r.wrote_pc && accesses_done(
            *old(bus),
            *final(bus),
            block_access(old(cpu)@, opcode, fetch_pc, Seq::empty()),
        ),
        block_count(opcode) > 0 && bit_of(opcode, 20) ==> exists|vals: Seq<u32>|
            vals.len() == block_count(opcode) && #[trigger] block_load_spec(
                old(cpu)@,
                opcode,
                fetch_pc,
                vals,
            ) == (final(cpu)@, r.wrote_pc) && accesses_done(
                *old(bus),
                *final(bus),
                block_access(old(cpu)@, opcode, fetch_pc, vals),
            ),
{
    let pre_index = opcode_bit(opcode, 24);
    let add_offset = opcode_bit(opcode, 23);
    let user_mode = opcode_bit(opcode, 22);
    let write_back = opcode_bit(opcode, 21);
    let load = opcode_bit(opcode, 20);
    let rn = reg_at(opcode, 16);
    let reglist = opcode & 0xffff;

    let count = popcount(reglist, 16);
    if count == 0 {
        return ExecutionResult::sequential(1);
    }

    let base = read_exec_reg(cpu, rn, fetch_pc);
    let start_addr = if add_offset && !pre_index {
        base
    } else if add_offset {
        base.wrapping_add(4)
    } else if !pre_index {
        base.wrapping_sub((count - 1) * 4)
    } else {
        base.wrapping_sub(count * 4)
    };
    let final_base = if add_offset {
        base.wrapping_add(count * 4)
    } else {
        base.wrapping_sub(count * 4)
    };

    let includes_pc = opcode_bit(reglist, 15);
    let access_user_bank = user_mode && (!load || !includes_pc);
    let user_bank = user_bank_mode(cpu.mode());
    let ghost s0 = cpu@;
    let ghost b0 = *bus;
    proof {
        lemma_accesses_none(b0);
    }

    let mut address = start_addr;
    let mut wrote_pc = false;

    if load {
        let ghost mut vals: Seq<u32> = Seq::empty();
        let mut reg: u8 = 0;
        while reg < 16
            invariant
                0 <= reg <= 16,
                s0.valid(),
                cpu@.valid(),
                user_bank == user_bank_mode_spec(s0.mode()),
                access_user_bank == block_user_bank(opcode),
                reglist == opcode & 0xffff,
                vals.len() == popcount_spec(reglist, reg as nat),
                (cpu@, wrote_pc) == ldm_fold(s0, reglist, access_user_bank, user_bank, vals, reg as nat),
                start_addr == block_start(s0, opcode, fetch_pc),
                address == word_at(start_addr, vals.len() as int),
                accesses_done(b0, *bus, block_reads(reglist, start_addr, vals, reg as nat)),
            decreases 16 - reg,
        {
            proof {
                crate::arm7tdmi::arm::lemma_popcount_bound(reglist, reg as nat);
                lemma_ldm_fold_valid(s0, reglist, access_user_bank, user_bank, vals, reg as nat);
            }
            if opcode_bit(reglist, reg as u32) {
                let ghost bprev = *bus;
                let value = bus.read_32(address);
                proof {
                    lemma_ldm_fold_prefix(s0, reglist, access_user_bank, user_bank, vals, value, reg as nat);
                    lemma_block_reads_prefix(reglist, start_addr, vals, value, reg as nat);
                    lemma_accesses_push(
                        b0,
                        bprev,
                        *bus,
                        block_reads(reglist, start_addr, vals, reg as nat),
                        BusAccess::Read32(address, value),
                    );
                    let k = vals.len() as int;
                    vals = vals.push(value);
                    assert(vals[k] == value);
                }
                address = address.wrapping_add(4);
                if access_user_bank {
                    cpu.write_reg_for_mode(user_bank, reg, value);
                } else {
                    let w = write_exec_reg(cpu, reg, value);
                    wrote_pc = wrote_pc || w;
                }
            }
            reg = reg + 1;
        }
        if user_mode && includes_pc {
            let mode = cpu.mode();
            if let Some(saved) = cpu.spsr(mode) {
                cpu.set_cpsr(saved);
            }
        }
        if write_back {
            cpu.write_reg(rn, final_base);
        }
        proof {
            lemma_ldm_fold_valid(s0, reglist, access_user_bank, user_bank, vals, 16);
            assert(block_load_spec(s0, opcode, fetch_pc, vals) == (cpu@, wrote_pc));
            assert(accesses_done(b0, *bus, block_access(s0, opcode, fetch_pc, vals)));
        }
    } else {
        let mut reg: u8 = 0;
        while reg < 16
            invariant
                0 <= reg <= 16,
                cpu@ == s0,
                s0.valid(),
                reglist == opcode & 0xffff,
                user_bank == user_bank_mode_spec(s0.mode()),
                access_user_bank == block_user_bank(opcode),
                start_addr == block_start(s0, opcode, fetch_pc),
                address == word_at(start_addr, popcount_spec(reglist, reg as nat) as int),
                accesses_done(
                    b0,
                    *bus,
                    block_writes(s0, reglist, start_addr, access_user_bank, user_bank, fetch_pc, reg as nat),
                ),
            decreases 16 - reg,
        {
            if opcode_bit(reglist, reg as u32) {
                let ghost bprev = *bus;
                let value = if access_user_bank && reg != PC {
                    cpu.read_reg_for_mode(user_bank, reg)
                } else if reg == PC {
                    fetch_pc.wrapping_add(12)
                } else {
                    cpu.read_reg(reg)
                };
                bus.write_32(address, value);
                proof {
                    lemma_accesses_push(
                        b0,
                        bprev,
                        *bus,
                        block_writes(s0, reglist, start_addr, access_user_bank, user_bank, fetch_pc, reg as nat),
                        BusAccess::Write32(address, value),
                    );
                }
                address = address.wrapping_add(4);
            }
            reg = reg + 1;
        }
        if write_back {
            cpu.write_reg(rn, final_base);
        }
    }

    ExecutionResult { cycles: count + 1, wrote_pc }
}

/// Where LDM and STM put a non-empty list of `n` registers relative to the
/// base Rn (wrapping): increment-after (U set, P clear) starts at the base,
/// increment-before one word above it, decrement-before `n` words below it
/// and decrement-after one word less far down; the base written back moves
/// `n` words up for U and down otherwise. So a decrementing-before
/// transfer's lowest word is where its base ends, and an incrementing-after
/// one ends just past its last word.
pub proof fn lemma_block_addresses(s: CpuView, opcode: u32, fetch_pc: u32)
    requires
        block_count(opcode) >= 1,
    ensures
        ({
            let base = exec_reg_spec(s, reg_field(opcode, 16), fetch_pc) as int;
            let bytes = 4 * block_count(opcode);
            let start = block_start(s, opcode, fetch_pc) as int;
            let fin = block_final_base(s, opcode, fetch_pc) as int;
            &&& (bit_of(opcode, 23) && !bit_of(opcode, 24)) ==> start == base
            &&& (bit_of(opcode, 23) && bit_of(opcode, 24)) ==> start == (base + 4) % 0x1_0000_0000
            &&& (!bit_of(opcode, 23) && bit_of(opcode, 24)) ==> start == (base - bytes + 0x1_0000_0000) % 0x1_0000_0000
            &&& (!bit_of(opcode, 23) && !bit_of(opcode, 24)) ==> start == (base - bytes + 4 + 0x1_0000_0000) % 0x1_0000_0000
            &&& bit_of(opcode, 23) ==> fin == (base + bytes) % 0x1_0000_0000
            &&& !bit_of(opcode, 23) ==> fin == (base - bytes + 0x1_0000_0000) % 0x1_0000_0000
            &&& (!bit_of(opcode, 23) && bit_of(opcode, 24)) ==> start == fin
            &&& (bit_of(opcode, 23) && !bit_of(opcode, 24)) ==> fin == (start + bytes) % 0x1_0000_0000
        }),
{
    crate::arm7tdmi::arm::lemma_popcount_bound(opcode & 0xffff, 16);
}

} // verus!
