//! ARM single data swap: SWP and SWPB.
use vstd::prelude::*;
use crate::arm7tdmi::psr::bit_of;
use crate::arm7tdmi::arm::{
    exec_reg_spec, load_word_spec, opcode_bit, read_exec_reg, reg_at, reg_field,
    rotate_loaded_word, write_exec_reg, write_exec_spec, ExecutionResult,
};
use crate::arm7tdmi::{
    access_done, accesses_done, lemma_accesses_one, lemma_accesses_push, Arm7tdmi, BusAccess,
    BusInterface, CpuView, PC,
};

verus! {

pub open spec fn is_data_swap_spec(opcode: u32) -> bool {
    opcode & 0x0fb0_0ff0 == 0x0100_0090
}

pub fn is_data_swap(opcode: u32) -> (r: bool)
    ensures
        r == is_data_swap_spec(opcode),
{
    (opcode & 0x0fb0_0ff0) == 0x0100_0090
}

/// The state after a swap whose bus read returned `raw`: Rd takes the byte,
/// or the word rotated as an unaligned load rotates it.
pub open spec fn swap_spec(s: CpuView, opcode: u32, fetch_pc: u32, raw: u32) -> (CpuView, bool) {
    let address = exec_reg_spec(s, reg_field(opcode, 16), fetch_pc);
    let loaded = if bit_of(opcode, 22) {
        raw
    } else {
        load_word_spec(raw, address)
    };
    write_exec_spec(s, reg_field(opcode, 12), loaded)
}

/// The value SWP stores: the old Rm (R15 reads as the address plus 12).
pub open spec fn swap_store_value_spec(s: CpuView, opcode: u32, fetch_pc: u32) -> u32 {
    let rm = reg_field(opcode, 0);
    if rm == PC {
        fetch_pc.wrapping_add(12)
    } else {
        exec_reg_spec(s, rm, fetch_pc)
    }
}

/// The bus accesses of a swap whose read returned `raw`: the byte (SWPB)
/// or aligned word at Rn read, then the stored value written there.
pub open spec fn swap_access(s: CpuView, opcode: u32, fetch_pc: u32, raw: u32) -> Seq<BusAccess> {
    let address = exec_reg_spec(s, reg_field(opcode, 16), fetch_pc);
    let v = swap_store_value_spec(s, opcode, fetch_pc);
    if bit_of(opcode, 22) {
        seq![BusAccess::Read8(address, raw as u8), BusAccess::Write8(address, v as u8)]
    } else {
        seq![BusAccess::Read32(address & !3u32, raw), BusAccess::Write32(address & !3u32, v)]
    }
}

/// Executes SWP/SWPB (4 cycles): reads memory at Rn, stores the old Rm there,
/// then writes the loaded value to Rd.
pub fn execute<B: BusInterface>(cpu: &mut Arm7tdmi, bus: &mut B, opcode: u32, fetch_pc: u32) -> (r:
    ExecutionResult)
    requires
        old(cpu)@.valid(),
    ensures
        final(cpu)@.valid(),
        exists|raw: u32|
            (bit_of(opcode, 22) ==> raw < 256) && #[trigger] swap_spec(old(cpu)@, opcode, fetch_pc, raw)
                == (final(cpu)@, r.wrote_pc) && accesses_done(
                *old(bus),
                *final(bus),
                swap_access(old(cpu)@, opcode, fetch_pc, raw),
            ),
        r.cycles == 4,
{
    let byte = opcode_bit(opcode, 22);
    let rn = reg_at(opcode, 16);
    let rd = reg_at(opcode, 12);
    let rm = reg_at(opcode, 0);

    let address = read_exec_reg(cpu, rn, fetch_pc);
    let store_value = if rm == PC {
        fetch_pc.wrapping_add(12)
    } else {
        read_exec_reg(cpu, rm, fetch_pc)
    };
    let ghost b0 = *bus;
    let raw: u32 = if byte {
        let b = bus.read_8(address);
        proof {
            lemma_accesses_one(b0, *bus, BusAccess::Read8(address, b));
        }
        b as u32
    } else {
        let w = bus.read_32(address & !3u32);
        proof {
            lemma_accesses_one(b0, *bus, BusAccess::Read32(address & !3u32, w));
        }
        w
    };
    let ghost b1 = *bus;
    let loaded_value = if byte {
        raw
    } else {
        rotate_loaded_word(raw, address)
    };
    if byte {
        bus.write_8(address, store_value as u8);
        proof {
            lemma_accesses_push(b0, b1, *bus, seq![BusAccess::Read8(address, raw as u8)], BusAccess::Write8(address, store_value as u8));
            assert(seq![BusAccess::Read8(address, raw as u8)].push(BusAccess::Write8(address, store_value as u8)) =~= seq![BusAccess::Read8(address, raw as u8), BusAccess::Write8(address, store_value as u8)]);
        }
    } else {
        bus.write_32(address & !3u32, store_value);
        proof {
            lemma_accesses_push(b0, b1, *bus, seq![BusAccess::Read32(address & !3u32, raw)], BusAccess::Write32(address & !3u32, store_value));
            assert(seq![BusAccess::Read32(address & !3u32, raw)].push(BusAccess::Write32(address & !3u32, store_value)) =~= seq![BusAccess::Read32(address & !3u32, raw), BusAccess::Write32(address & !3u32, store_value)]);
        }
    }
    let ghost s0 = cpu@;
    let wrote_pc = write_exec_reg(cpu, rd, loaded_value);
    assert(swap_spec(s0, opcode, fetch_pc, raw) == (cpu@, wrote_pc));
    assert(accesses_done(b0, *bus, swap_access(s0, opcode, fetch_pc, raw)));
    ExecutionResult { cycles: 4, wrote_pc }
}

} // verus!
