//! The system bus: routes CPU and DMA accesses by address to the BIOS, the
//! two work RAMs, the I/O registers, palette RAM, VRAM, OAM, Game Pak ROM
//! and save RAM.
use vstd::prelude::*;

use crate::arm7tdmi::BusInterface;
use crate::cartridge::{rom_byte, Cartridge};
use crate::io::{IoRegs, IoView};
use crate::ppu::{advance, Ppu};
use crate::mem::{
    lemma_mirror_bounds, lemma_store_then_load, zero_prefix, le16_at, le32_at, mirror, read_u16, read_u32, store16, store32, write_u16, write_u32,
    BiosLoadError, Memory, BIOS_SIZE, EWRAM_SIZE, IWRAM_SIZE,
};

verus! {

pub const PALETTE_SIZE: usize = 0x400;

pub const VRAM_SIZE: usize = 0x18000;

pub const OAM_SIZE: usize = 0x400;

pub const SRAM_SIZE: usize = 0x10000;

pub const EWRAM_BASE: u32 = 0x0200_0000;

pub const IWRAM_BASE: u32 = 0x0300_0000;

/// The bytes of every region of the address space and the I/O registers.
#[verifier::ext_equal]
pub struct BusView {
    pub bios: Seq<u8>,
    pub ewram: Seq<u8>,
    pub iwram: Seq<u8>,
    pub io: IoView,
    pub palette: Seq<u8>,
    pub vram: Seq<u8>,
    pub oam: Seq<u8>,
    pub sram: Seq<u8>,
    pub rom: Seq<u8>,
}

/// The 16 MiB region of the address space an address falls in (its top
/// byte).
pub open spec fn region(addr: u32) -> int {
    addr as int / 0x0100_0000
}

/// The VRAM byte an address in region 6 reaches: the 96 KiB of VRAM repeat
/// every 128 KiB, the last 32 KiB of each window mirroring the 32 KiB
/// before it.
pub open spec fn vram_offset_spec(addr: u32) -> int {
    let o = addr as int % 0x20000;
    if o >= VRAM_SIZE {
        o - 0x8000
    } else {
        o
    }
}

/// The little-endian halfword of Game Pak ROM at `addr`.
pub open spec fn rom16(rom: Seq<u8>, addr: u32) -> u16 {
    (rom_byte(rom, addr) as u16) | ((rom_byte(rom, addr.wrapping_add(1)) as u16) << 8u16)
}

/// The little-endian word of Game Pak ROM at `addr`.
pub open spec fn rom32(rom: Seq<u8>, addr: u32) -> u32 {
    (rom_byte(rom, addr) as u32) | ((rom_byte(rom, addr.wrapping_add(1)) as u32) << 8u32) | ((
    rom_byte(rom, addr.wrapping_add(2)) as u32) << 16u32) | ((rom_byte(rom, addr.wrapping_add(3))
        as u32) << 24u32)
}

impl BusView {
    /// Every RAM region has its size.
    pub open spec fn valid(self) -> bool {
        &&& self.bios.len() == BIOS_SIZE
        &&& self.ewram.len() == EWRAM_SIZE
        &&& self.iwram.len() == IWRAM_SIZE
        &&& self.palette.len() == PALETTE_SIZE
        &&& self.vram.len() == VRAM_SIZE
        &&& self.oam.len() == OAM_SIZE
        &&& self.sram.len() == SRAM_SIZE
    }

    /// The byte at `addr`; 0 in unmapped regions.
    pub open spec fn read8(self, addr: u32) -> u8 {
        let r = region(addr);
        if r == 0 {
            self.bios[mirror(addr, BIOS_SIZE)]
        } else if r == 2 {
            self.ewram[mirror((addr - EWRAM_BASE) as u32, EWRAM_SIZE)]
        } else if r == 3 {
            self.iwram[mirror((addr - IWRAM_BASE) as u32, IWRAM_SIZE)]
        } else if r == 4 {
            self.io.read8(addr)
        } else if r == 5 {
            self.palette[addr as int % PALETTE_SIZE as int]
        } else if r == 6 {
            self.vram[vram_offset_spec(addr)]
        } else if r == 7 {
            self.oam[addr as int % OAM_SIZE as int]
        } else if 8 <= r <= 0xd {
            rom_byte(self.rom, addr)
        } else if r == 0xe || r == 0xf {
            self.sram[addr as int % SRAM_SIZE as int]
        } else {
            0
        }
    }

    /// The little-endian halfword at `addr`; 0 in unmapped regions.
    pub open spec fn read16(self, addr: u32) -> u16 {
        let r = region(addr);
        if r == 0 {
            le16_at(self.bios, mirror(addr, BIOS_SIZE))
        } else if r == 2 {
            le16_at(self.ewram, mirror((addr - EWRAM_BASE) as u32, EWRAM_SIZE))
        } else if r == 3 {
            le16_at(self.iwram, mirror((addr - IWRAM_BASE) as u32, IWRAM_SIZE))
        } else if r == 4 {
            self.io.read16(addr)
        } else if r == 5 {
            le16_at(self.palette, addr as int % PALETTE_SIZE as int)
        } else if r == 6 {
            le16_at(self.vram, vram_offset_spec(addr))
        } else if r == 7 {
            le16_at(self.oam, addr as int % OAM_SIZE as int)
        } else if 8 <= r <= 0xd {
            rom16(self.rom, addr)
        } else if r == 0xe || r == 0xf {
            le16_at(self.sram, addr as int % SRAM_SIZE as int)
        } else {
            0
        }
    }

    /// The little-endian word at `addr`; 0 in unmapped regions.
    pub open spec fn read32(self, addr: u32) -> u32 {
        let r = region(addr);
        if r == 0 {
            le32_at(self.bios, mirror(addr, BIOS_SIZE))
        } else if r == 2 {
            le32_at(self.ewram, mirror((addr - EWRAM_BASE) as u32, EWRAM_SIZE))
        } else if r == 3 {
            le32_at(self.iwram, mirror((addr - IWRAM_BASE) as u32, IWRAM_SIZE))
        } else if r == 4 {
            self.io.read32(addr)
        } else if r == 5 {
            le32_at(self.palette, addr as int % PALETTE_SIZE as int)
        } else if r == 6 {
            le32_at(self.vram, vram_offset_spec(addr))
        } else if r == 7 {
            le32_at(self.oam, addr as int % OAM_SIZE as int)
        } else if 8 <= r <= 0xd {
            rom32(self.rom, addr)
        } else if r == 0xe || r == 0xf {
            le32_at(self.sram, addr as int % SRAM_SIZE as int)
        } else {
            0
        }
    }

    /// The state after a byte store; BIOS, ROM and unmapped regions ignore
    /// it.
    pub open spec fn write8(self, addr: u32, val: u8) -> BusView {
        let r = region(addr);
        if r == 2 {
            BusView {
                ewram: self.ewram.update(mirror((addr - EWRAM_BASE) as u32, EWRAM_SIZE), val),
                ..self
            }
        } else if r == 3 {
            BusView {
                iwram: self.iwram.update(mirror((addr - IWRAM_BASE) as u32, IWRAM_SIZE), val),
                ..self
            }
        } else if r == 4 {
            BusView { io: self.io.write8(addr, val), ..self }
        } else if r == 5 {
            BusView { palette: self.palette.update(addr as int % PALETTE_SIZE as int, val), ..self }
        } else if r == 6 {
            BusView { vram: self.vram.update(vram_offset_spec(addr), val), ..self }
        } else if r == 7 {
            BusView { oam: self.oam.update(addr as int % OAM_SIZE as int, val), ..self }
        } else if r == 0xe || r == 0xf {
            BusView { sram: self.sram.update(addr as int % SRAM_SIZE as int, val), ..self }
        } else {
            self
        }
    }

    /// The state after a little-endian halfword store; BIOS, ROM and
    /// unmapped regions ignore it.
    pub open spec fn write16(self, addr: u32, val: u16) -> BusView {
        let r = region(addr);
        if r == 2 {
            BusView {
                ewram: store16(self.ewram, mirror((addr - EWRAM_BASE) as u32, EWRAM_SIZE), val),
                ..self
            }
        } else if r == 3 {
            BusView {
                iwram: store16(self.iwram, mirror((addr - IWRAM_BASE) as u32, IWRAM_SIZE), val),
                ..self
            }
        } else if r == 4 {
            BusView { io: self.io.write16(addr, val), ..self }
        } else if r == 5 {
            BusView { palette: store16(self.palette, addr as int % PALETTE_SIZE as int, val), ..self }
        } else if r == 6 {
            BusView { vram: store16(self.vram, vram_offset_spec(addr), val), ..self }
        } else if r == 7 {
            BusView { oam: store16(self.oam, addr as int % OAM_SIZE as int, val), ..self }
        } else if r == 0xe || r == 0xf {
            BusView { sram: store16(self.sram, addr as int % SRAM_SIZE as int, val), ..self }
        } else {
            self
        }
    }

    /// The state after a little-endian word store; BIOS, ROM and unmapped
    /// regions ignore it.
    pub open spec fn write32(self, addr: u32, val: u32) -> BusView {
        let r = region(addr);
        if r == 2 {
            BusView {
                ewram: store32(self.ewram, mirror((addr - EWRAM_BASE) as u32, EWRAM_SIZE), val),
                ..self
            }
        } else if r == 3 {
            BusView {
                iwram: store32(self.iwram, mirror((addr - IWRAM_BASE) as u32, IWRAM_SIZE), val),
                ..self
            }
        } else if r == 4 {
            BusView { io: self.io.write32(addr, val), ..self }
        } else if r == 5 {
            BusView { palette: store32(self.palette, addr as int % PALETTE_SIZE as int, val), ..self }
        } else if r == 6 {
            BusView { vram: store32(self.vram, vram_offset_spec(addr), val), ..self }
        } else if r == 7 {
            BusView { oam: store32(self.oam, addr as int % OAM_SIZE as int, val), ..self }
        } else if r == 0xe || r == 0xf {
            BusView { sram: store32(self.sram, addr as int % SRAM_SIZE as int, val), ..self }
        } else {
            self
        }
    }
}

/// `s` with its bytes below `end` zeroed.
pub open spec fn zeroed_below(s: Seq<u8>, end: int) -> Seq<u8> {
    Seq::new(s.len(), |i: int| if i < end { 0u8 } else { s[i] })
}

impl BusView {
    /// The BIOS RegisterRamReset service: each set bit of `mask` clears one
    /// area. Bit 0 EWRAM, bit 1 IWRAM except its top 0x200 bytes, bit 2
    /// palette RAM, bit 3 VRAM, bit 4 OAM, bit 7 the I/O registers (back to
    /// their power-on values).
    pub open spec fn ram_reset(self, mask: u8) -> BusView {
        BusView {
            ewram: if mask & 0x01 != 0 {
                zeroed_below(self.ewram, EWRAM_SIZE as int)
            } else {
                self.ewram
            },
            iwram: if mask & 0x02 != 0 {
                zeroed_below(self.iwram, IWRAM_SIZE - 0x200)
            } else {
                self.iwram
            },
            palette: if mask & 0x04 != 0 {
                zeroed_below(self.palette, PALETTE_SIZE as int)
            } else {
                self.palette
            },
            vram: if mask & 0x08 != 0 {
                zeroed_below(self.vram, VRAM_SIZE as int)
            } else {
                self.vram
            },
            oam: if mask & 0x10 != 0 {
                zeroed_below(self.oam, OAM_SIZE as int)
            } else {
                self.oam
            },
            io: if mask & 0x80 != 0 {
                IoView::reset()
            } else {
                self.io
            },
            ..self
        }
    }
}

/// The shared address bus for the whole GBA.
#[derive(Debug, Clone, PartialEq, Eq)]
pub struct Bus {
    memory: Memory,
    cartridge: Cartridge,
    io: IoRegs,
    palette: Box<[u8; PALETTE_SIZE]>,
    vram: Box<[u8; VRAM_SIZE]>,
    oam: Box<[u8; OAM_SIZE]>,
    sram: Box<[u8; SRAM_SIZE]>,
}

impl View for Bus {
    type V = BusView;

    closed spec fn view(&self) -> BusView {
        BusView {
            bios: self.memory.bios(),
            ewram: self.memory.ewram(),
            iwram: self.memory.iwram(),
            io: self.io@,
            palette: self.palette@,
            vram: self.vram@,
            oam: self.oam@,
            sram: self.sram@,
            rom: self.cartridge@,
        }
    }
}

fn vram_offset(addr: u32) -> (r: usize)
    ensures
        r == vram_offset_spec(addr),
        r < VRAM_SIZE,
{
    let offset = (addr % 0x20000) as usize;
    if offset >= VRAM_SIZE {
        offset - 0x8000
    } else {
        offset
    }
}

impl Bus {
    /// Every region has its size.
    pub open spec fn wf(&self) -> bool {
        self@.valid()
    }

    /// Every region always has its size.
    pub proof fn lemma_valid(&self)
        ensures
            self.wf(),
    {
        self.memory.lemma_wf_sizes();
    }

    /// The I/O register block always has its fixed shape.
    pub proof fn lemma_io_valid(&self)
        ensures
            self@.io.valid(),
    {
        self.io.lemma_valid();
    }

    /// A bus with zeroed RAM, reset I/O registers and `cartridge` in the
    /// Game Pak slot.
    pub fn new(cartridge: Cartridge) -> (bus: Self)
        ensures
            bus.wf(),
            bus@.rom == cartridge@,
            bus@.io == IoView::reset(),
            bus@.bios == Seq::new(BIOS_SIZE as nat, |i: int| 0u8),
            bus@.ewram == Seq::new(EWRAM_SIZE as nat, |i: int| 0u8),
            bus@.iwram == Seq::new(IWRAM_SIZE as nat, |i: int| 0u8),
            bus@.palette == Seq::new(PALETTE_SIZE as nat, |i: int| 0u8),
            bus@.vram == Seq::new(VRAM_SIZE as nat, |i: int| 0u8),
            bus@.oam == Seq::new(OAM_SIZE as nat, |i: int| 0u8),
            bus@.sram == Seq::new(SRAM_SIZE as nat, |i: int| 0u8),
    {
        let bus = Bus {
            memory: Memory::new(),
            cartridge,
            io: IoRegs::new(),
            palette: Box::new([0u8; PALETTE_SIZE]),
            vram: Box::new([0u8; VRAM_SIZE]),
            oam: Box::new([0u8; OAM_SIZE]),
            sram: Box::new([0u8; SRAM_SIZE]),
        };
        assert(bus.palette@ =~= Seq::new(PALETTE_SIZE as nat, |i: int| 0u8));
        assert(bus.vram@ =~= Seq::new(VRAM_SIZE as nat, |i: int| 0u8));
        assert(bus.oam@ =~= Seq::new(OAM_SIZE as nat, |i: int| 0u8));
        assert(bus.sram@ =~= Seq::new(SRAM_SIZE as nat, |i: int| 0u8));
        bus
    }

    pub fn memory(&self) -> (r: &Memory)
        ensures
            r.bios() == self@.bios,
            r.ewram() == self@.ewram,
            r.iwram() == self@.iwram,
    {
        &self.memory
    }

    pub fn memory_mut(&mut self) -> (r: &mut Memory)
        ensures
            r.bios() == old(self)@.bios,
            r.ewram() == old(self)@.ewram,
            r.iwram() == old(self)@.iwram,
            final(self)@ == (BusView {
                bios: final(r).bios(),
                ewram: final(r).ewram(),
                iwram: final(r).iwram(),
                ..old(self)@
            }),
    {
        &mut self.memory
    }

    /// Copy a BIOS image in; see `Memory::load_bios`.
    pub fn load_bios(&mut self, bios: &[u8]) -> (r: Result<(), BiosLoadError>)
        ensures
            final(self)@ == (BusView { bios: final(self)@.bios, ..old(self)@ }),
            bios@.len() > BIOS_SIZE ==> r == Err::<(), BiosLoadError>(
                BiosLoadError::TooLarge { actual: bios@.len() as usize, max: BIOS_SIZE },
            ) && final(self)@.bios == old(self)@.bios,
            bios@.len() <= BIOS_SIZE ==> r is Ok && final(self)@.bios == bios@ + Seq::new(
                (BIOS_SIZE - bios@.len()) as nat,
                |i: int| 0u8,
            ),
    {
        self.memory.load_bios(bios)
    }

    pub fn cartridge(&self) -> (r: &Cartridge)
        ensures
            r@ == self@.rom,
    {
        &self.cartridge
    }

    pub fn io(&self) -> (r: &IoRegs)
        ensures
            r@ == self@.io,
    {
        &self.io
    }

    pub fn io_mut(&mut self) -> (r: &mut IoRegs)
        ensures
            r@ == old(self)@.io,
            final(self)@ == (BusView { io: final(r)@, ..old(self)@ }),
    {
        &mut self.io
    }

    pub fn palette(&self) -> (r: &[u8; PALETTE_SIZE])
        ensures
            r@ == self@.palette,
    {
        &self.palette
    }

    pub fn vram(&self) -> (r: &[u8; VRAM_SIZE])
        ensures
            r@ == self@.vram,
    {
        &self.vram
    }

    pub fn oam(&self) -> (r: &[u8; OAM_SIZE])
        ensures
            r@ == self@.oam,
    {
        &self.oam
    }

    /// The byte at `addr`; see `BusView::read8`.
    pub fn load8(&self, addr: u32) -> (r: u8)
        ensures
            r == self@.read8(addr),
    {
        proof {
            self.lemma_valid();
        }
        let region = addr / 0x0100_0000;
        if region == 0 {
            self.memory.read_bios_8(addr)
        } else if region == 2 {
            self.memory.read_ewram_8(addr - EWRAM_BASE)
        } else if region == 3 {
            self.memory.read_iwram_8(addr - IWRAM_BASE)
        } else if region == 4 {
            self.io.read_8(addr)
        } else if region == 5 {
            self.palette[(addr % 0x400) as usize]
        } else if region == 6 {
            self.vram[vram_offset(addr)]
        } else if region == 7 {
            self.oam[(addr % 0x400) as usize]
        } else if 8 <= region && region <= 0xd {
            self.cartridge.read_8(addr)
        } else if region == 0xe || region == 0xf {
            self.sram[(addr % 0x10000) as usize]
        } else {
            0
        }
    }

    /// The halfword at `addr`; see `BusView::read16`.
    pub fn load16(&self, addr: u32) -> (r: u16)
        ensures
            r == self@.read16(addr),
    {
        proof {
            self.lemma_valid();
        }
        let region = addr / 0x0100_0000;
        if region == 0 {
            self.memory.read_bios_16(addr)
        } else if region == 2 {
            self.memory.read_ewram_16(addr - EWRAM_BASE)
        } else if region == 3 {
            self.memory.read_iwram_16(addr - IWRAM_BASE)
        } else if region == 4 {
            self.io.read_16(addr)
        } else if region == 5 {
            read_u16(&self.palette, (addr % 0x400) as usize)
        } else if region == 6 {
            read_u16(&self.vram, vram_offset(addr))
        } else if region == 7 {
            read_u16(&self.oam, (addr % 0x400) as usize)
        } else if 8 <= region && region <= 0xd {
            self.cartridge.read_16(addr)
        } else if region == 0xe || region == 0xf {
            read_u16(&self.sram, (addr % 0x10000) as usize)
        } else {
            0
        }
    }

    /// The word at `addr`; see `BusView::read32`.
    pub fn load32(&self, addr: u32) -> (r: u32)
        ensures
            r == self@.read32(addr),
    {
        proof {
            self.lemma_valid();
        }
        let region = addr / 0x0100_0000;
        if region == 0 {
            self.memory.read_bios_32(addr)
        } else if region == 2 {
            self.memory.read_ewram_32(addr - EWRAM_BASE)
        } else if region == 3 {
            self.memory.read_iwram_32(addr - IWRAM_BASE)
        } else if region == 4 {
            self.io.read_32(addr)
        } else if region == 5 {
            read_u32(&self.palette, (addr % 0x400) as usize)
        } else if region == 6 {
            read_u32(&self.vram, vram_offset(addr))
        } else if region == 7 {
            read_u32(&self.oam, (addr % 0x400) as usize)
        } else if 8 <= region && region <= 0xd {
            self.cartridge.read_32(addr)
        } else if region == 0xe || region == 0xf {
            read_u32(&self.sram, (addr % 0x10000) as usize)
        } else {
            0
        }
    }

    /// A byte store; see `BusView::write8`.
    pub fn store8(&mut self, addr: u32, val: u8)
        ensures
            final(self)@ == old(self)@.write8(addr, val),
    {
        proof {
            self.lemma_valid();
        }
        let region = addr / 0x0100_0000;
        if region == 2 {
            self.memory.write_ewram_8(addr - EWRAM_BASE, val);
        } else if region == 3 {
            self.memory.write_iwram_8(addr - IWRAM_BASE, val);
        } else if region == 4 {
            self.io.write_8(addr, val);
        } else if region == 5 {
            self.palette[(addr % 0x400) as usize] = val;
        } else if region == 6 {
            let offset = vram_offset(addr);
            self.vram[offset] = val;
        } else if region == 7 {
            self.oam[(addr % 0x400) as usize] = val;
        } else if region == 0xe || region == 0xf {
            self.sram[(addr % 0x10000) as usize] = val;
        }
    }

    /// A halfword store; see `BusView::write16`.
    pub fn store16(&mut self, addr: u32, val: u16)
        ensures
            final(self)@ == old(self)@.write16(addr, val),
    {
        proof {
            self.lemma_valid();
        }
        let region = addr / 0x0100_0000;
        if region == 2 {
            self.memory.write_ewram_16(addr - EWRAM_BASE, val);
        } else if region == 3 {
            self.memory.write_iwram_16(addr - IWRAM_BASE, val);
        } else if region == 4 {
            self.io.write_16(addr, val);
        } else if region == 5 {
            write_u16(&mut self.palette, (addr % 0x400) as usize, val);
        } else if region == 6 {
            let offset = vram_offset(addr);
            write_u16(&mut self.vram, offset, val);
        } else if region == 7 {
            write_u16(&mut self.oam, (addr % 0x400) as usize, val);
        } else if region == 0xe || region == 0xf {
            write_u16(&mut self.sram, (addr % 0x10000) as usize, val);
        }
    }

    /// A word store; see `BusView::write32`.
    pub fn store32(&mut self, addr: u32, val: u32)
        ensures
            final(self)@ == old(self)@.write32(addr, val),
    {
        proof {
            self.lemma_valid();
        }
        let region = addr / 0x0100_0000;
        if region == 2 {
            self.memory.write_ewram_32(addr - EWRAM_BASE, val);
        } else if region == 3 {
            self.memory.write_iwram_32(addr - IWRAM_BASE, val);
        } else if region == 4 {
            self.io.write_32(addr, val);
        } else if region == 5 {
            write_u32(&mut self.palette, (addr % 0x400) as usize, val);
        } else if region == 6 {
            let offset = vram_offset(addr);
            write_u32(&mut self.vram, offset, val);
        } else if region == 7 {
            write_u32(&mut self.oam, (addr % 0x400) as usize, val);
        } else if region == 0xe || region == 0xf {
            write_u32(&mut self.sram, (addr % 0x10000) as usize, val);
        }
    }

    /// Clear the areas selected by `mask`; see `BusView::ram_reset`.
    pub fn register_ram_reset(&mut self, mask: u8)
        ensures
            final(self)@ == old(self)@.ram_reset(mask),
    {
        proof {
            self.lemma_valid();
        }
        if mask & 0x01 != 0 {
            self.memory.clear_ewram();
            assert(self@.ewram =~= zeroed_below(old(self)@.ewram, EWRAM_SIZE as int));
        }
        if mask & 0x02 != 0 {
            self.memory.clear_iwram_below(IWRAM_SIZE - 0x200);
            assert(self@.iwram =~= zeroed_below(old(self)@.iwram, IWRAM_SIZE - 0x200));
        }
        if mask & 0x04 != 0 {
            zero_prefix(&mut self.palette, PALETTE_SIZE);
            assert(self@.palette =~= zeroed_below(old(self)@.palette, PALETTE_SIZE as int));
        }
        if mask & 0x08 != 0 {
            zero_prefix(&mut self.vram, VRAM_SIZE);
            assert(self@.vram =~= zeroed_below(old(self)@.vram, VRAM_SIZE as int));
        }
        if mask & 0x10 != 0 {
            zero_prefix(&mut self.oam, OAM_SIZE);
            assert(self@.oam =~= zeroed_below(old(self)@.oam, OAM_SIZE as int));
        }
        if mask & 0x80 != 0 {
            self.io = IoRegs::new();
        }
        proof {
            self.lemma_valid();
        }
    }

    /// Run the LCD for `cycles` cycles against the I/O registers, VRAM,
    /// palette and OAM; see `advance`.
    pub fn step_ppu(&mut self, ppu: &mut Ppu, cycles: u32)
        requires
            old(ppu)@.valid(),
        ensures
            final(ppu)@.valid(),
            (final(ppu)@, final(self)@.io) == advance(
                old(ppu)@,
                old(self)@.io,
                old(self)@.vram,
                old(self)@.palette,
                old(self)@.oam,
                cycles as nat,
            ),
            final(self)@ == (BusView { io: final(self)@.io, ..old(self)@ }),
    {
        ppu.step(cycles, &mut self.io, &*self.vram, &*self.palette, &*self.oam);
    }

    /// A word read without side effects, for debuggers and tests.
    pub fn read_32_debug(&self, addr: u32) -> (r: u32)
        ensures
            r == self@.read32(addr),
    {
        self.load32(addr)
    }

    /// A word store, for debuggers and tests.
    pub fn write_32_debug(&mut self, addr: u32, val: u32)
        ensures
            final(self)@ == old(self)@.write32(addr, val),
    {
        self.store32(addr, val);
    }
}

impl BusInterface for Bus {
    fn read_8(&mut self, addr: u32) -> (r: u8)
        ensures
            *final(self) == *old(self),
            r == old(self)@.read8(addr),
    {
        self.load8(addr)
    }

    fn read_16(&mut self, addr: u32) -> (r: u16)
        ensures
            *final(self) == *old(self),
            r == old(self)@.read16(addr),
    {
        self.load16(addr)
    }

    fn read_32(&mut self, addr: u32) -> (r: u32)
        ensures
            *final(self) == *old(self),
            r == old(self)@.read32(addr),
    {
        self.load32(addr)
    }

    fn write_8(&mut self, addr: u32, val: u8)
        ensures
            final(self)@ == old(self)@.write8(addr, val),
    {
        self.store8(addr, val);
    }

    open spec fn byte_read(before: &Self, after: &Self, addr: u32, val: u8) -> bool {
        *after == *before && val == before@.read8(addr)
    }

    open spec fn halfword_read(before: &Self, after: &Self, addr: u32, val: u16) -> bool {
        *after == *before && val == before@.read16(addr)
    }

    open spec fn word_read(before: &Self, after: &Self, addr: u32, val: u32) -> bool {
        *after == *before && val == before@.read32(addr)
    }

    open spec fn byte_written(before: &Self, after: &Self, addr: u32, val: u8) -> bool {
        after@ == before@.write8(addr, val)
    }

    open spec fn halfword_written(before: &Self, after: &Self, addr: u32, val: u16) -> bool {
        after@ == before@.write16(addr, val)
    }

    open spec fn word_written(before: &Self, after: &Self, addr: u32, val: u32) -> bool {
        after@ == before@.write32(addr, val)
    }

    fn write_16(&mut self, addr: u32, val: u16)
        ensures
            final(self)@ == old(self)@.write16(addr, val),
    {
        self.store16(addr, val);
    }

    fn write_32(&mut self, addr: u32, val: u32)
        ensures
            final(self)@ == old(self)@.write32(addr, val),
    {
        self.store32(addr, val);
    }
}

/// A halfword or word stored to any RAM region (work RAM, palette, VRAM,
/// OAM, save RAM) reads back unchanged at the same address, and every
/// region keeps its size.
pub proof fn lemma_ram_write_read(b: BusView, addr: u32, v16: u16, v32: u32)
    requires
        b.valid(),
        region(addr) == 2 || region(addr) == 3 || region(addr) == 5 || region(addr) == 6
            || region(addr) == 7 || region(addr) == 0xe || region(addr) == 0xf,
    ensures
        b.write16(addr, v16).read16(addr) == v16,
        b.write32(addr, v32).read32(addr) == v32,
        b.write16(addr, v16).valid(),
        b.write32(addr, v32).valid(),
{
    lemma_mirror_bounds((addr - EWRAM_BASE) as u32);
    lemma_mirror_bounds((addr - IWRAM_BASE) as u32);
    let r = region(addr);
    if r == 2 {
        lemma_store_then_load(b.ewram, mirror((addr - EWRAM_BASE) as u32, EWRAM_SIZE), v16, v32);
    } else if r == 3 {
        lemma_store_then_load(b.iwram, mirror((addr - IWRAM_BASE) as u32, IWRAM_SIZE), v16, v32);
    } else if r == 5 {
        lemma_store_then_load(b.palette, addr as int % PALETTE_SIZE as int, v16, v32);
    } else if r == 6 {
        lemma_store_then_load(b.vram, vram_offset_spec(addr), v16, v32);
    } else if r == 7 {
        lemma_store_then_load(b.oam, addr as int % OAM_SIZE as int, v16, v32);
    } else {
        lemma_store_then_load(b.sram, addr as int % SRAM_SIZE as int, v16, v32);
    }
}

/// Stores to the BIOS and to Game Pak ROM change nothing.
pub proof fn lemma_read_only_regions(b: BusView, addr: u32, v8: u8, v16: u16, v32: u32)
    requires
        region(addr) == 0 || 8 <= region(addr) <= 0xd,
    ensures
        b.write8(addr, v8) == b,
        b.write16(addr, v16) == b,
        b.write32(addr, v32) == b,
{
}

/// What the BIOS RegisterRamReset service leaves to be read: with bit 0 of
/// the mask every byte of EWRAM reads 0, with bit 1 every byte of IWRAM
/// below its top 0x200 bytes, with bit 2 palette RAM, with bit 3 VRAM and
/// with bit 4 OAM; an area whose bit is clear, IWRAM's top 0x200 bytes, the
/// BIOS, Game Pak ROM and save RAM read as before.
#[verifier::spinoff_prover]
#[verifier::rlimit(40)]
pub proof fn lemma_ram_reset_reads(b: BusView, mask: u8, addr: u32)
    requires
        b.valid(),
    ensures
        ({
            let r = region(addr);
            let after = b.ram_reset(mask).read8(addr);
            &&& r == 2 ==> after == (if mask & 0x01 != 0 { 0 } else { b.read8(addr) })
            &&& (r == 3 && mirror((addr - IWRAM_BASE) as u32, IWRAM_SIZE) < 0x7e00) ==> after == (if mask & 0x02
                != 0 { 0 } else { b.read8(addr) })
            &&& (r == 3 && mirror((addr - IWRAM_BASE) as u32, IWRAM_SIZE) >= 0x7e00) ==> after == b.read8(addr)
            &&& r == 5 ==> after == (if mask & 0x04 != 0 { 0 } else { b.read8(addr) })
            &&& r == 6 ==> after == (if mask & 0x08 != 0 { 0 } else { b.read8(addr) })
            &&& r == 7 ==> after == (if mask & 0x10 != 0 { 0 } else { b.read8(addr) })
            &&& (r == 0 || 8 <= r <= 0xf) ==> after == b.read8(addr)
        }),
{
    lemma_mirror_bounds((addr - EWRAM_BASE) as u32);
    lemma_mirror_bounds((addr - IWRAM_BASE) as u32);
    lemma_mirror_bounds(addr);
}

} // verus!
