use rgba_core::arm7tdmi::{
    add_with_carry, shift_immediate, shift_register, Arm7tdmi, BusInterface, Exception, Mode, Psr,
    Registers, SavedProgramStatusRegisters, ShiftKind, LR, PC, SP,
};

#[derive(Debug, Clone)]
struct FakeBus {
    mem: Vec<u8>,
}

impl FakeBus {
    fn new(size: usize) -> Self {
        Self { mem: vec![0; size] }
    }

    fn load32(&mut self, addr: u32, value: u32) {
        self.write_32(addr, value);
    }

    fn load16(&mut self, addr: u32, value: u16) {
        self.write_16(addr, value);
    }

    fn read32(&self, addr: u32) -> u32 {
        let b0 = self.mem[addr as usize] as u32;
        let b1 = self.mem[addr as usize + 1] as u32;
        let b2 = self.mem[addr as usize + 2] as u32;
        let b3 = self.mem[addr as usize + 3] as u32;
        b0 | (b1 << 8) | (b2 << 16) | (b3 << 24)
    }

    fn write32(&mut self, addr: u32, value: u32) {
        self.mem[addr as usize] = value as u8;
        self.mem[addr as usize + 1] = (value >> 8) as u8;
        self.mem[addr as usize + 2] = (value >> 16) as u8;
        self.mem[addr as usize + 3] = (value >> 24) as u8;
    }
}

impl BusInterface for FakeBus {
    fn byte_read(before: &Self, after: &Self, addr: u32, val: u8) -> bool {
        before.mem == after.mem && before.mem[addr as usize] == val
    }

    fn halfword_read(before: &Self, after: &Self, addr: u32, val: u16) -> bool {
        let lo = before.mem[addr as usize] as u16;
        let hi = before.mem[addr as usize + 1] as u16;
        before.mem == after.mem && (lo | (hi << 8)) == val
    }

    fn word_read(before: &Self, after: &Self, addr: u32, val: u32) -> bool {
        before.mem == after.mem && before.read32(addr) == val
    }

    fn byte_written(before: &Self, after: &Self, addr: u32, val: u8) -> bool {
        let mut expected = before.mem.clone();
        expected[addr as usize] = val;
        expected == after.mem
    }

    fn halfword_written(before: &Self, after: &Self, addr: u32, val: u16) -> bool {
        let mut expected = before.mem.clone();
        expected[addr as usize] = val as u8;
        expected[addr as usize + 1] = (val >> 8) as u8;
        expected == after.mem
    }

    fn word_written(before: &Self, after: &Self, addr: u32, val: u32) -> bool {
        let mut expected = before.mem.clone();
        for i in 0..4 {
            expected[addr as usize + i] = (val >> (8 * i)) as u8;
        }
        expected == after.mem
    }

    fn read_8(&mut self, addr: u32) -> u8 {
        self.mem[addr as usize]
    }

    fn read_16(&mut self, addr: u32) -> u16 {
        let lo = self.mem[addr as usize] as u16;
        let hi = self.mem[addr as usize + 1] as u16;
        lo | (hi << 8)
    }

    fn read_32(&mut self, addr: u32) -> u32 {
        let b0 = self.mem[addr as usize] as u32;
        let b1 = self.mem[addr as usize + 1] as u32;
        let b2 = self.mem[addr as usize + 2] as u32;
        let b3 = self.mem[addr as usize + 3] as u32;
        b0 | (b1 << 8) | (b2 << 16) | (b3 << 24)
    }

    fn write_8(&mut self, addr: u32, val: u8) {
        self.mem[addr as usize] = val;
    }

    fn write_16(&mut self, addr: u32, val: u16) {
        self.mem[addr as usize] = val as u8;
        self.mem[addr as usize + 1] = (val >> 8) as u8;
    }

    fn write_32(&mut self, addr: u32, val: u32) {
        self.mem[addr as usize] = val as u8;
        self.mem[addr as usize + 1] = (val >> 8) as u8;
        self.mem[addr as usize + 2] = (val >> 16) as u8;
        self.mem[addr as usize + 3] = (val >> 24) as u8;
    }
}

fn cpu_with_pc(pc: u32) -> Arm7tdmi {
    let mut cpu = Arm7tdmi::new();
    cpu.set_pc(pc);
    cpu
}

/// Run one ARM instruction from a fresh bus of `size` bytes.
fn exec_arm_fresh(cpu: &mut Arm7tdmi, size: usize, opcode: u32) {
    let mut bus = FakeBus::new(size);
    bus.load32(cpu.pc(), opcode);
    cpu.step(&mut bus);
}

/// Run one ARM instruction placed at the PC of `bus`.
fn exec_arm(cpu: &mut Arm7tdmi, bus: &mut FakeBus, opcode: u32) {
    bus.load32(cpu.pc(), opcode);
    cpu.step(bus);
}

/// Run one Thumb instruction from a fresh 64-byte bus.
fn exec_thumb_fresh(cpu: &mut Arm7tdmi, opcode: u16) {
    let mut bus = FakeBus::new(64);
    cpu.set_thumb(true);
    bus.load16(cpu.pc(), opcode);
    cpu.step(&mut bus);
}

/// Run one Thumb instruction placed at the PC of `bus`.
fn exec_thumb(cpu: &mut Arm7tdmi, bus: &mut FakeBus, opcode: u16) {
    cpu.set_thumb(true);
    bus.load16(cpu.pc(), opcode);
    cpu.step(bus);
}


#[test]
fn add_with_carry_reports_unsigned_carry() {
    let result = add_with_carry(0xffff_ffff, 1, false);
    assert_eq!(result.value, 0);
    assert!(result.carry_out);
    assert!(!result.overflow);
}

#[test]
fn add_with_carry_reports_signed_overflow() {
    let result = add_with_carry(0x7fff_ffff, 1, false);
    assert_eq!(result.value, 0x8000_0000);
    assert!(!result.carry_out);
    assert!(result.overflow);
}

#[test]
fn subtraction_can_be_expressed_via_add_with_carry() {
    let no_borrow = add_with_carry(3, !1, true);
    let with_borrow = add_with_carry(1, !3, true);

    assert_eq!(no_borrow.value, 2);
    assert!(no_borrow.carry_out);
    assert_eq!(with_borrow.value, 0xffff_fffe);
    assert!(!with_borrow.carry_out);
}

#[test]
fn immediate_lsr_zero_means_shift_by_32() {
    let result = shift_immediate(ShiftKind::Lsr, 0x8000_0001, 0, false);
    assert_eq!(result.value, 0);
    assert!(result.carry_out);
}

#[test]
fn immediate_asr_zero_sign_extends() {
    let result = shift_immediate(ShiftKind::Asr, 0x8000_0000, 0, false);
    assert_eq!(result.value, 0xffff_ffff);
    assert!(result.carry_out);
}

#[test]
fn immediate_ror_zero_becomes_rrx() {
    let result = shift_immediate(ShiftKind::Ror, 0x0000_0003, 0, true);
    assert_eq!(result.value, 0x8000_0001);
    assert!(result.carry_out);
}

#[test]
fn register_ror_32_keeps_value_and_uses_bit31_as_carry() {
    let result = shift_register(ShiftKind::Ror, 0x8000_0001, 32, false);
    assert_eq!(result.value, 0x8000_0001);
    assert!(result.carry_out);
}

#[test]
fn register_zero_shift_preserves_carry_in() {
    let result = shift_register(ShiftKind::Lsl, 0x1234_5678, 0, true);
    assert_eq!(result.value, 0x1234_5678);
    assert!(result.carry_out);
}


#[test]
fn irq_entry_saves_cpsr_and_switches_mode() {
    let mut cpu = Arm7tdmi::new();
    let mut cpsr = Psr::new(Mode::User);
    cpsr.set_thumb(true);
    cpsr.set_negative(true);
    cpu.set_cpsr(cpsr);
    cpu.set_pc(0x0800_0100);

    cpu.enter_exception(Exception::Irq, 0x0800_0104);

    assert_eq!(cpu.mode(), Mode::Irq);
    assert!(!cpu.is_thumb());
    assert!(cpu.cpsr().irq_disabled());
    assert_eq!(cpu.spsr(Mode::Irq), Some(cpsr));
    assert_eq!(cpu.read_reg_for_mode(Mode::Irq, LR), 0x0800_0104);
    assert_eq!(cpu.read_reg_for_mode(Mode::Irq, PC), 0x0000_0018);
}

#[test]
fn fiq_entry_uses_fiq_bank_and_masks_fiqs() {
    let mut cpu = Arm7tdmi::new();
    cpu.write_reg(8, 0x1111);
    cpu.write_reg(12, 0x2222);

    cpu.enter_exception(Exception::Fiq, 0x0800_0004);
    cpu.write_reg(8, 0xaaaa);
    cpu.write_reg(12, 0xbbbb);

    assert_eq!(cpu.mode(), Mode::Fiq);
    assert!(cpu.cpsr().irq_disabled());
    assert!(cpu.cpsr().fiq_disabled());
    assert_eq!(cpu.read_reg(8), 0xaaaa);
    assert_eq!(cpu.read_reg(12), 0xbbbb);
    assert_eq!(cpu.read_reg_for_mode(Mode::User, 8), 0x1111);
    assert_eq!(cpu.read_reg_for_mode(Mode::User, 12), 0x2222);
}

#[test]
fn reset_forces_supervisor_arm_state_and_vectors_to_zero() {
    let mut cpu = Arm7tdmi::new();
    let mut cpsr = Psr::new(Mode::System);
    cpsr.set_thumb(true);
    cpu.set_cpsr(cpsr);

    cpu.enter_exception(Exception::Reset, 0);

    assert_eq!(cpu.mode(), Mode::Supervisor);
    assert!(!cpu.is_thumb());
    assert!(cpu.cpsr().irq_disabled());
    assert!(cpu.cpsr().fiq_disabled());
    assert_eq!(cpu.read_reg_for_mode(Mode::Supervisor, PC), 0x0000_0000);
}


#[test]
fn psr_tracks_flags_state_and_mode() {
    let mut psr = Psr::new(Mode::User);
    psr.set_negative(true);
    psr.set_zero(true);
    psr.set_carry(true);
    psr.set_overflow(false);
    psr.set_thumb(true);
    psr.set_irq_disabled(true);
    psr.set_mode(Mode::Irq);

    assert!(psr.negative());
    assert!(psr.zero());
    assert!(psr.carry());
    assert!(!psr.overflow());
    assert!(psr.thumb());
    assert!(psr.irq_disabled());
    assert_eq!(psr.mode(), Mode::Irq);
}

#[test]
fn set_nzcv_updates_all_condition_flags() {
    let mut psr = Psr::new(Mode::Supervisor);
    psr.set_nzcv(0x8000_0000, true, true);

    assert!(psr.negative());
    assert!(!psr.zero());
    assert!(psr.carry());
    assert!(psr.overflow());
}

#[test]
fn spsr_banks_exist_only_for_exception_modes() {
    let mut spsrs = SavedProgramStatusRegisters::default();
    let irq_psr = Psr::from_bits(0xf000_00d2);

    assert!(spsrs.set(Mode::Irq, irq_psr));
    assert_eq!(spsrs.get(Mode::Irq), Some(irq_psr));
    assert_eq!(spsrs.get(Mode::User), None);
    assert!(!spsrs.set(Mode::System, irq_psr));
}


#[test]
fn user_and_system_share_the_same_register_bank() {
    let mut regs = Registers::default();
    regs.write(Mode::User, 0, 0x11);
    regs.write(Mode::User, SP, 0x1000);
    regs.write(Mode::User, LR, 0x2000);

    assert_eq!(regs.read(Mode::System, 0), 0x11);
    assert_eq!(regs.read(Mode::System, SP), 0x1000);
    assert_eq!(regs.read(Mode::System, LR), 0x2000);
}

#[test]
fn irq_banks_sp_and_lr_but_shares_general_registers() {
    let mut regs = Registers::default();
    regs.write(Mode::User, 12, 0xaaaa_bbbb);
    regs.write(Mode::User, SP, 0x1000);
    regs.write(Mode::User, LR, 0x2000);

    regs.write(Mode::Irq, SP, 0x3000);
    regs.write(Mode::Irq, LR, 0x4000);

    assert_eq!(regs.read(Mode::Irq, 12), 0xaaaa_bbbb);
    assert_eq!(regs.read(Mode::Irq, SP), 0x3000);
    assert_eq!(regs.read(Mode::Irq, LR), 0x4000);
    assert_eq!(regs.read(Mode::User, SP), 0x1000);
    assert_eq!(regs.read(Mode::User, LR), 0x2000);
}

#[test]
fn fiq_has_private_high_registers() {
    let mut regs = Registers::default();
    regs.write(Mode::User, 7, 0x07);
    regs.write(Mode::User, 8, 0x08);
    regs.write(Mode::User, 12, 0x0c);
    regs.write(Mode::User, SP, 0x1000);
    regs.write(Mode::User, LR, 0x2000);

    regs.write(Mode::Fiq, 8, 0x8000);
    regs.write(Mode::Fiq, 12, 0xc000);
    regs.write(Mode::Fiq, SP, 0xf000);
    regs.write(Mode::Fiq, LR, 0xf100);

    assert_eq!(regs.read(Mode::Fiq, 7), 0x07);
    assert_eq!(regs.read(Mode::Fiq, 8), 0x8000);
    assert_eq!(regs.read(Mode::Fiq, 12), 0xc000);
    assert_eq!(regs.read(Mode::Fiq, SP), 0xf000);
    assert_eq!(regs.read(Mode::Fiq, LR), 0xf100);

    assert_eq!(regs.read(Mode::User, 8), 0x08);
    assert_eq!(regs.read(Mode::User, 12), 0x0c);
    assert_eq!(regs.read(Mode::User, SP), 0x1000);
    assert_eq!(regs.read(Mode::User, LR), 0x2000);
}


#[test]
fn branch_updates_pc_from_visible_pc() {
    let mut cpu = cpu_with_pc(0);
    exec_arm_fresh(&mut cpu, 512, 0xea00_0001);
    assert_eq!(cpu.pc(), 12);
}

#[test]
fn branch_with_link_stashes_return_address_in_lr() {
    let mut cpu = cpu_with_pc(0x100);
    exec_arm_fresh(&mut cpu, 512, 0xeb00_0000);
    assert_eq!(cpu.lr(), 0x104);
    assert_eq!(cpu.pc(), 0x108);
}

#[test]
fn bx_can_switch_to_thumb_state() {
    let mut cpu = cpu_with_pc(0);
    cpu.write_reg(1, 0x201);
    exec_arm_fresh(&mut cpu, 512, 0xe12f_ff11);
    assert!(cpu.is_thumb());
    assert_eq!(cpu.pc(), 0x200);
}

#[test]
fn swi_enters_supervisor_mode() {
    let mut cpu = cpu_with_pc(0x80);
    exec_arm_fresh(&mut cpu, 512, 0xef00_0000);
    assert_eq!(cpu.mode(), Mode::Supervisor);
    assert_eq!(cpu.pc(), 0x8);
    assert_eq!(cpu.lr(), 0x84);
}


#[test]
fn mov_immediate_uses_rotated_immediate() {
    let mut cpu = cpu_with_pc(0);
    exec_arm_fresh(&mut cpu, 64, 0xe3a0_0123);
    assert_eq!(cpu.read_reg(0), 0xc000_0008);
}

#[test]
fn add_register_shift_updates_flags() {
    let mut cpu = cpu_with_pc(0);
    cpu.write_reg(1, 2);
    cpu.write_reg(2, 1);

    exec_arm_fresh(&mut cpu, 64, 0xe091_0082);

    assert_eq!(cpu.read_reg(0), 4);
    assert!(!cpu.cpsr().zero());
    assert!(!cpu.cpsr().negative());
}

#[test]
fn cmp_updates_flags_without_writing_destination() {
    let mut cpu = cpu_with_pc(0);
    cpu.write_reg(1, 5);
    cpu.write_reg(0, 0xdead_beef);

    exec_arm_fresh(&mut cpu, 64, 0xe351_0005);

    assert_eq!(cpu.read_reg(0), 0xdead_beef);
    assert!(cpu.cpsr().zero());
    assert!(cpu.cpsr().carry());
}

#[test]
fn movs_pc_restores_cpsr_from_spsr() {
    let mut cpu = cpu_with_pc(0);
    let mut current = Psr::new(Mode::Supervisor);
    current.set_negative(true);
    cpu.set_cpsr(current);

    let mut saved = Psr::new(Mode::Irq);
    saved.set_thumb(true);
    saved.set_zero(true);
    cpu.set_spsr(Mode::Supervisor, saved);
    cpu.write_reg(1, 0x40);

    exec_arm_fresh(&mut cpu, 64, 0xe1b0_f001);

    assert_eq!(cpu.pc(), 0x40);
    assert_eq!(cpu.cpsr(), saved);
}

#[test]
fn pc_used_in_register_shift_reads_as_fetch_pc_plus_twelve() {
    let mut cpu = cpu_with_pc(0);
    cpu.write_reg(0, 0);

    exec_arm_fresh(&mut cpu, 64, 0xe1a0_001f); // MOV r0, pc, LSL r0

    assert_eq!(cpu.read_reg(0), 12);
}

#[test]
fn bad_cmp_with_rd_pc_restores_cpsr_without_flushing_pipeline() {
    let mut cpu = cpu_with_pc(0);
    cpu.write_reg(0, 0);
    cpu.write_reg_for_mode(Mode::System, 8, 32);
    cpu.write_reg_for_mode(Mode::Fiq, 8, 64);
    cpu.set_mode(Mode::Fiq);
    cpu.set_spsr(Mode::Fiq, Psr::new(Mode::System));

    let mut bus = FakeBus::new(16);
    bus.load32(0, 0xe15f_f000); // CMP pc, pc, r0
    bus.load32(4, 0xe3a0_1001); // MOV r1, #1

    cpu.step(&mut bus);
    cpu.step(&mut bus);

    assert_eq!(cpu.mode(), Mode::System);
    assert_eq!(cpu.read_reg(8), 32);
    assert_eq!(cpu.read_reg(1), 1);
    assert_eq!(cpu.pc(), 8);
}


#[test]
fn stmia_stores_registers_in_ascending_order() {
    let mut cpu = cpu_with_pc(0);
    let mut bus = FakeBus::new(256);
    cpu.write_reg(0, 0x40);
    cpu.write_reg(1, 0x1111_1111);
    cpu.write_reg(2, 0x2222_2222);
    cpu.write_reg(3, 0x3333_3333);

    exec_arm(&mut cpu, &mut bus, 0xe880_000e);

    assert_eq!(bus.read32(0x40), 0x1111_1111);
    assert_eq!(bus.read32(0x44), 0x2222_2222);
    assert_eq!(bus.read32(0x48), 0x3333_3333);
}

#[test]
fn ldmdb_loads_registers_and_writes_back() {
    let mut cpu = cpu_with_pc(0);
    let mut bus = FakeBus::new(256);
    cpu.write_reg(0, 0x50);
    bus.write32(0x48, 0xaaaa_aaaa);
    bus.write32(0x4c, 0xbbbb_bbbb);

    exec_arm(&mut cpu, &mut bus, 0xe930_0006);

    assert_eq!(cpu.read_reg(1), 0xaaaa_aaaa);
    assert_eq!(cpu.read_reg(2), 0xbbbb_bbbb);
    assert_eq!(cpu.read_reg(0), 0x48);
}

#[test]
fn ldm_with_s_and_pc_restores_cpsr() {
    let mut cpu = cpu_with_pc(0);
    let mut bus = FakeBus::new(256);
    cpu.set_mode(Mode::Supervisor);
    cpu.write_reg(0, 0x40);
    bus.write32(0x40, 0x1234_5678);
    bus.write32(0x44, 0x80);

    let mut saved = Psr::new(Mode::Irq);
    saved.set_thumb(true);
    saved.set_zero(true);
    cpu.set_spsr(Mode::Supervisor, saved);

    exec_arm(&mut cpu, &mut bus, 0xe8f0_8002);

    assert_eq!(cpu.read_reg(1), 0x1234_5678);
    assert_eq!(cpu.pc(), 0x80);
    assert_eq!(cpu.cpsr(), saved);
}


#[test]
fn swp_word_exchanges_register_and_memory() {
    let mut cpu = cpu_with_pc(0);
    let mut bus = FakeBus::new(256);
    cpu.write_reg(0, 0x40);
    cpu.write_reg(1, 0xffff_ffff);
    bus.write32(0x40, 0x1234_5678);

    exec_arm(&mut cpu, &mut bus, 0xe100_1091);

    assert_eq!(cpu.read_reg(1), 0x1234_5678);
    assert_eq!(bus.read32(0x40), 0xffff_ffff);
}

#[test]
fn swpb_byte_zero_extends_loaded_value() {
    let mut cpu = cpu_with_pc(0);
    let mut bus = FakeBus::new(256);
    cpu.write_reg(0, 0x40);
    cpu.write_reg(1, 0xffff_ffff);
    bus.write32(0x40, 0x1122_3344);

    exec_arm(&mut cpu, &mut bus, 0xe140_1091);

    assert_eq!(cpu.read_reg(1), 0x44);
    assert_eq!(bus.read32(0x40), 0x1122_33ff);
}

#[test]
fn swp_word_reads_rotated_value_from_misaligned_address() {
    let mut cpu = cpu_with_pc(0);
    let mut bus = FakeBus::new(256);
    cpu.write_reg(0, 0x41);
    cpu.write_reg(1, 32);
    bus.write32(0x40, 64);

    exec_arm(&mut cpu, &mut bus, 0xe100_3091);

    assert_eq!(cpu.read_reg(3), 64u32.rotate_right(8));
    assert_eq!(bus.read32(0x40), 32);
}

#[test]
fn swp_with_same_source_and_destination_uses_old_source_value_for_store() {
    let mut cpu = cpu_with_pc(0);
    let mut bus = FakeBus::new(256);
    cpu.write_reg(0, 0x40);
    bus.write32(0x40, 32);
    cpu.write_reg(1, 64);

    exec_arm(&mut cpu, &mut bus, 0xe100_1091);

    assert_eq!(cpu.read_reg(1), 32);
    assert_eq!(bus.read32(0x40), 64);
}


#[test]
fn strh_stores_the_low_halfword() {
    let mut cpu = cpu_with_pc(0);
    let mut bus = FakeBus::new(256);
    cpu.write_reg(0, 0x40);
    cpu.write_reg(1, 0xffff_1234);

    exec_arm(&mut cpu, &mut bus, 0xe1c0_10b0);

    assert_eq!(bus.read32(0x40), 0x0000_1234);
}

#[test]
fn ldrh_rotates_misaligned_loads() {
    let mut cpu = cpu_with_pc(0);
    let mut bus = FakeBus::new(256);
    cpu.write_reg(0, 0x40);
    bus.write_16(0x40, 0x0020);

    exec_arm(&mut cpu, &mut bus, 0xe1d0_10b1);

    assert_eq!(cpu.read_reg(1), 0x2000_0000);
}

#[test]
fn ldrsh_from_odd_address_sign_extends_the_byte() {
    let mut cpu = cpu_with_pc(0);
    let mut bus = FakeBus::new(256);
    cpu.write_reg(0, 0x40);
    bus.write_16(0x40, 0xff00);

    exec_arm(&mut cpu, &mut bus, 0xe1d0_10f1);

    assert_eq!(cpu.read_reg(1), 0xffff_ffff);
}

#[test]
fn load_with_writeback_same_register_keeps_loaded_value() {
    let mut cpu = cpu_with_pc(0);
    let mut bus = FakeBus::new(256);
    cpu.write_reg(0, 0x40);
    bus.write32(0x44, 32);

    exec_arm(&mut cpu, &mut bus, 0xe1f0_00b4);

    assert_eq!(cpu.read_reg(0), 32);
}

#[test]
fn store_with_writeback_same_register_updates_base_after_storing_old_value() {
    let mut cpu = cpu_with_pc(0);
    let mut bus = FakeBus::new(256);
    cpu.write_reg(0, 0x40);

    exec_arm(&mut cpu, &mut bus, 0xe1e0_00b4);

    assert_eq!(cpu.read_reg(0), 0x44);
    assert_eq!(bus.read32(0x44), 0x40);
}


#[test]
fn mul_produces_low_32_bits() {
    let mut cpu = cpu_with_pc(0);
    cpu.write_reg(1, 7);
    cpu.write_reg(2, 6);
    exec_arm_fresh(&mut cpu, 64, 0xe000_0291);
    assert_eq!(cpu.read_reg(0), 42);
}

#[test]
fn mla_accumulates_into_result() {
    let mut cpu = cpu_with_pc(0);
    cpu.write_reg(1, 7);
    cpu.write_reg(2, 6);
    cpu.write_reg(3, 5);
    exec_arm_fresh(&mut cpu, 64, 0xe020_3291);
    assert_eq!(cpu.read_reg(0), 47);
}

#[test]
fn umull_writes_hi_and_lo() {
    let mut cpu = cpu_with_pc(0);
    cpu.write_reg(2, 0xffff_ffff);
    cpu.write_reg(3, 2);
    exec_arm_fresh(&mut cpu, 64, 0xe082_1392);
    assert_eq!(cpu.read_reg(1), 0xffff_fffe);
    assert_eq!(cpu.read_reg(2), 1);
}


#[test]
fn mrs_reads_cpsr() {
    let mut cpu = cpu_with_pc(0);
    let mut cpsr = Psr::new(Mode::Supervisor);
    cpsr.set_negative(true);
    cpu.set_cpsr(cpsr);

    exec_arm_fresh(&mut cpu, 64, 0xe10f_0000);
    assert_eq!(cpu.read_reg(0), cpsr.bits());
}

#[test]
fn msr_register_updates_selected_cpsr_fields() {
    let mut cpu = cpu_with_pc(0);
    cpu.write_reg(0, 0xf000_0000);
    exec_arm_fresh(&mut cpu, 64, 0xe128_f000);

    assert!(cpu.cpsr().negative());
    assert!(cpu.cpsr().zero());
    assert!(cpu.cpsr().carry());
    assert!(cpu.cpsr().overflow());
    assert_eq!(cpu.mode(), Mode::User);
}

#[test]
fn msr_immediate_can_update_spsr() {
    let mut cpu = cpu_with_pc(0);
    cpu.set_mode(Mode::Supervisor);
    cpu.set_spsr(Mode::Supervisor, Psr::new(Mode::Irq));

    exec_arm_fresh(&mut cpu, 64, 0xe368_f4f0);
    let spsr = cpu.spsr(Mode::Supervisor).unwrap();
    assert!(spsr.negative());
    assert!(spsr.zero());
    assert!(spsr.carry());
    assert!(spsr.overflow());
}

#[test]
fn msr_cpsr_f_updates_flag_byte() {
    let mut cpu = cpu_with_pc(0);
    cpu.write_reg(0, 0xf000_0000);

    exec_arm_fresh(&mut cpu, 64, 0xe128_f000);

    assert_eq!(cpu.cpsr().bits() & 0xff00_0000, 0xf000_0000);
}

#[test]
fn user_mode_msr_cpsr_c_does_not_change_control_bits() {
    let mut cpu = cpu_with_pc(0);
    cpu.write_reg(0, 0x0000_0013);

    exec_arm_fresh(&mut cpu, 64, 0xe121_f000);

    assert_eq!(cpu.mode(), Mode::User);
    assert!(!cpu.is_thumb());
}


#[test]
fn str_and_ldr_word_with_immediate_offsets_work() {
    let mut cpu = cpu_with_pc(0);
    let mut bus = FakeBus::new(256);
    cpu.write_reg(0, 0x80);
    cpu.write_reg(1, 0x1234_5678);

    exec_arm(&mut cpu, &mut bus, 0xe580_1004);
    cpu.set_pc(4);
    exec_arm(&mut cpu, &mut bus, 0xe590_2004);

    assert_eq!(cpu.read_reg(2), 0x1234_5678);
}

#[test]
fn post_indexed_load_writes_back_base() {
    let mut cpu = cpu_with_pc(0);
    let mut bus = FakeBus::new(256);
    cpu.write_reg(0, 0x40);
    bus.write32(0x40, 0xdead_beef);

    exec_arm(&mut cpu, &mut bus, 0xe490_1004);

    assert_eq!(cpu.read_reg(1), 0xdead_beef);
    assert_eq!(cpu.read_reg(0), 0x44);
}

#[test]
fn register_offset_store_uses_shifted_offset() {
    let mut cpu = cpu_with_pc(0);
    let mut bus = FakeBus::new(256);
    cpu.write_reg(0, 0x20);
    cpu.write_reg(1, 0xa5a5_5a5a);
    cpu.write_reg(2, 3);

    exec_arm(&mut cpu, &mut bus, 0xe780_1102);

    assert_eq!(bus.read32(0x2c), 0xa5a5_5a5a);
}

#[test]
fn ldr_word_rotates_unaligned_reads() {
    let mut cpu = cpu_with_pc(0);
    let mut bus = FakeBus::new(256);
    cpu.write_reg(0, 0x80);
    bus.write32(0x80, 0x1122_3344);

    exec_arm(&mut cpu, &mut bus, 0xe590_1001);

    assert_eq!(cpu.read_reg(1), 0x4411_2233);
}


#[test]
fn sequential_thumb_execution_advances_pc_by_two() {
    let mut cpu = cpu_with_pc(0);
    cpu.set_thumb(true);
    let mut bus = FakeBus::new(32);
    bus.load16(0, 0x2001); // MOVS r0, #1

    let cycles = cpu.step(&mut bus);

    assert_eq!(cycles, 1);
    assert_eq!(cpu.read_reg(0), 1);
    assert_eq!(cpu.pc(), 2);
}


#[test]
fn shift_immediate_updates_carry() {
    let mut cpu = cpu_with_pc(0);
    cpu.write_reg(1, 0x8000_0001);

    exec_thumb_fresh(&mut cpu, 0x0048); // LSLS r0, r1, #1

    assert_eq!(cpu.read_reg(0), 0x0000_0002);
    assert!(cpu.cpsr().carry());
}

#[test]
fn add_sub_format_updates_flags() {
    let mut cpu = cpu_with_pc(0);
    cpu.write_reg(1, 5);
    cpu.write_reg(2, 3);

    exec_thumb_fresh(&mut cpu, 0x1888); // ADDS r0, r1, r2

    assert_eq!(cpu.read_reg(0), 8);
    assert!(!cpu.cpsr().zero());
    assert!(!cpu.cpsr().negative());
}

#[test]
fn immediate_cmp_only_updates_flags() {
    let mut cpu = cpu_with_pc(0);
    cpu.write_reg(0, 7);

    exec_thumb_fresh(&mut cpu, 0x2807); // CMP r0, #7

    assert!(cpu.cpsr().zero());
    assert!(cpu.cpsr().carry());
    assert_eq!(cpu.read_reg(0), 7);
}

#[test]
fn alu_neg_uses_subtract_semantics() {
    let mut cpu = cpu_with_pc(0);
    cpu.write_reg(1, 3);

    exec_thumb_fresh(&mut cpu, 0x4248); // NEG r0, r1

    assert_eq!(cpu.read_reg(0), 0xffff_fffd);
    assert!(cpu.cpsr().negative());
}

#[test]
fn high_register_mov_can_write_pc() {
    let mut cpu = cpu_with_pc(0);
    cpu.write_reg(14, 0x21);

    exec_thumb_fresh(&mut cpu, 0x46f7); // MOV pc, lr

    assert_eq!(cpu.pc(), 0x20);
    assert!(cpu.is_thumb());
}

#[test]
fn bx_can_switch_back_to_arm() {
    let mut cpu = cpu_with_pc(0);
    cpu.write_reg(1, 0x80);

    exec_thumb_fresh(&mut cpu, 0x4708); // BX r1

    assert_eq!(cpu.pc(), 0x80);
    assert!(!cpu.is_thumb());
}


#[test]
fn conditional_branch_uses_thumb_visible_pc() {
    let mut cpu = cpu_with_pc(0);
    let mut bus = FakeBus::new(64);
    let mut cpsr = cpu.cpsr();
    cpsr.set_zero(true);
    cpu.set_cpsr(cpsr);

    exec_thumb(&mut cpu, &mut bus, 0xd001); // BEQ +2

    assert_eq!(cpu.pc(), 6);
}

#[test]
fn unconditional_branch_sign_extends_offset() {
    let mut cpu = cpu_with_pc(4);
    let mut bus = FakeBus::new(64);

    exec_thumb(&mut cpu, &mut bus, 0xe002); // B +4

    assert_eq!(cpu.pc(), 12);
}

#[test]
fn swi_enters_supervisor_mode_from_thumb() {
    let mut cpu = cpu_with_pc(0x20);
    let mut bus = FakeBus::new(64);

    exec_thumb(&mut cpu, &mut bus, 0xdf00); // SWI 0

    assert_eq!(cpu.mode(), Mode::Supervisor);
    assert_eq!(cpu.pc(), 0x8);
    assert_eq!(cpu.lr(), 0x22);
    assert!(!cpu.is_thumb());
}

#[test]
fn bl_uses_two_halfwords() {
    let mut cpu = cpu_with_pc(0);
    let mut bus = FakeBus::new(64);
    cpu.set_thumb(true);
    bus.load16(0, 0xf000); // BL first half, offset high = 0
    bus.load16(2, 0xf802); // BL second half, offset low = 4

    cpu.step(&mut bus);
    assert_eq!(cpu.lr(), 4);
    assert_eq!(cpu.pc(), 2);

    cpu.step(&mut bus);
    assert_eq!(cpu.pc(), 8);
    assert_eq!(cpu.lr(), 5);
    assert!(cpu.is_thumb());
}


#[test]
fn add_and_subtract_sp_work() {
    let mut cpu = cpu_with_pc(0);
    let mut bus = FakeBus::new(64);
    cpu.set_sp(0x80);

    exec_thumb(&mut cpu, &mut bus, 0xb001); // ADD SP, #4
    assert_eq!(cpu.sp(), 0x84);

    cpu.set_pc(2);
    exec_thumb(&mut cpu, &mut bus, 0xb081); // SUB SP, #4
    assert_eq!(cpu.sp(), 0x80);
}

#[test]
fn push_and_pop_with_pc_round_trip() {
    let mut cpu = cpu_with_pc(0);
    let mut bus = FakeBus::new(256);
    cpu.set_sp(0x80);
    cpu.write_reg(0, 0x1111_1111);
    cpu.write_reg(1, 0x2222_2222);
    cpu.set_lr(0x41);

    exec_thumb(&mut cpu, &mut bus, 0xb503); // PUSH {r0, r1, lr}
    assert_eq!(cpu.sp(), 0x74);

    cpu.write_reg(0, 0);
    cpu.write_reg(1, 0);
    cpu.set_pc(2);
    exec_thumb(&mut cpu, &mut bus, 0xbd03); // POP {r0, r1, pc}

    assert_eq!(cpu.read_reg(0), 0x1111_1111);
    assert_eq!(cpu.read_reg(1), 0x2222_2222);
    assert_eq!(cpu.pc(), 0x40);
    assert_eq!(cpu.sp(), 0x80);
}

#[test]
fn stmia_and_ldmia_update_base() {
    let mut cpu = cpu_with_pc(0);
    let mut bus = FakeBus::new(256);
    cpu.write_reg(0, 0x40);
    cpu.write_reg(1, 0xaaaa_aaaa);
    cpu.write_reg(2, 0xbbbb_bbbb);

    exec_thumb(&mut cpu, &mut bus, 0xc006); // STMIA r0!, {r1, r2}
    assert_eq!(bus.read32(0x40), 0xaaaa_aaaa);
    assert_eq!(bus.read32(0x44), 0xbbbb_bbbb);
    assert_eq!(cpu.read_reg(0), 0x48);

    cpu.write_reg(1, 0);
    cpu.write_reg(2, 0);
    cpu.write_reg(3, 0x40);
    cpu.set_pc(2);
    exec_thumb(&mut cpu, &mut bus, 0xcb06); // LDMIA r3!, {r1, r2}
    assert_eq!(cpu.read_reg(1), 0xaaaa_aaaa);
    assert_eq!(cpu.read_reg(2), 0xbbbb_bbbb);
    assert_eq!(cpu.read_reg(3), 0x48);
}

#[test]
fn ldmia_empty_rlist_loads_pc_and_increments_base_by_0x40() {
    let mut cpu = cpu_with_pc(0);
    let mut bus = FakeBus::new(256);
    cpu.set_thumb(true);
    cpu.write_reg(0, 0x40);
    bus.write32(0x40, 0x81);

    exec_thumb(&mut cpu, &mut bus, 0xc800); // LDMIA r0!, {}

    assert_eq!(cpu.pc(), 0x80);
    assert_eq!(cpu.read_reg(0), 0x80);
}

#[test]
fn stmia_empty_rlist_stores_pc_and_increments_base_by_0x40() {
    let mut cpu = cpu_with_pc(0);
    let mut bus = FakeBus::new(256);
    cpu.set_thumb(true);
    cpu.write_reg(0, 0x40);

    bus.load16(0, 0xc000); // STMIA r0!, {}
    bus.load16(2, 0x4679); // MOV r1, pc
    cpu.step(&mut bus);
    cpu.step(&mut bus);

    assert_eq!(bus.read32(0x40), cpu.read_reg(1));
    assert_eq!(cpu.read_reg(0), 0x80);
}

#[test]
fn stmia_with_base_in_rlist_stores_new_base_unless_base_is_first() {
    let mut cpu = cpu_with_pc(0);
    let mut bus = FakeBus::new(256);
    cpu.set_thumb(true);
    cpu.write_reg(0, 0xaaaa_aaaa);
    cpu.write_reg(1, 0x40);
    cpu.write_reg(2, 0xbbbb_bbbb);
    cpu.write_reg(3, 0xcccc_cccc);

    exec_thumb(&mut cpu, &mut bus, 0xc10f); // STMIA r1!, {r0-r3}

    assert_eq!(bus.read32(0x40), 0xaaaa_aaaa);
    assert_eq!(bus.read32(0x44), 0x50);
    assert_eq!(cpu.read_reg(1), 0x50);

    cpu.write_reg(1, 0x80);
    exec_thumb(&mut cpu, &mut bus, 0xc11e); // STMIA r1!, {r1-r4}

    assert_eq!(bus.read32(0x80), 0x80);
    assert_eq!(cpu.read_reg(1), 0x90);
}


#[test]
fn pc_relative_load_uses_aligned_visible_pc() {
    let mut cpu = cpu_with_pc(2);
    cpu.set_thumb(true);
    let mut bus = FakeBus::new(128);
    bus.write32(4, 0x1122_3344);

    exec_thumb(&mut cpu, &mut bus, 0x4800); // LDR r0, [PC, #0]

    assert_eq!(cpu.read_reg(0), 0x1122_3344);
}

#[test]
fn register_offset_signed_byte_load_sign_extends() {
    let mut cpu = cpu_with_pc(0);
    let mut bus = FakeBus::new(128);
    cpu.write_reg(1, 0x40);
    cpu.write_reg(2, 1);
    bus.write_8(0x41, 0xf0);

    exec_thumb(&mut cpu, &mut bus, 0x5688); // LDSB r0, [r1, r2]

    assert_eq!(cpu.read_reg(0), 0xffff_fff0);
}

#[test]
fn immediate_word_store_and_load_work() {
    let mut cpu = cpu_with_pc(0);
    let mut bus = FakeBus::new(256);
    cpu.write_reg(1, 0x40);
    cpu.write_reg(0, 0x1234_5678);

    exec_thumb(&mut cpu, &mut bus, 0x6008); // STR r0, [r1, #0]
    cpu.set_pc(2);
    exec_thumb(&mut cpu, &mut bus, 0x680a); // LDR r2, [r1, #0]

    assert_eq!(cpu.read_reg(2), 0x1234_5678);
}

#[test]
fn load_address_from_pc_uses_word_aligned_base() {
    let mut cpu = cpu_with_pc(2);
    let mut bus = FakeBus::new(64);

    exec_thumb(&mut cpu, &mut bus, 0xa000); // ADD r0, PC, #0

    assert_eq!(cpu.read_reg(0), 4);
}

#[test]
fn sp_relative_store_and_load_work() {
    let mut cpu = cpu_with_pc(0);
    let mut bus = FakeBus::new(256);
    cpu.set_sp(0x80);
    cpu.write_reg(0, 0xaabb_ccdd);

    exec_thumb(&mut cpu, &mut bus, 0x9000); // STR r0, [SP, #0]
    cpu.set_pc(2);
    exec_thumb(&mut cpu, &mut bus, 0x9900); // LDR r1, [SP, #0]

    assert_eq!(bus.read32(0x80), 0xaabb_ccdd);
    assert_eq!(cpu.read_reg(1), 0xaabb_ccdd);
}
