//! Game Pak ROM image.
use vstd::prelude::*;

verus! {

pub const GAMEPAK0_BASE: u32 = 0x0800_0000;

pub const GAMEPAK1_BASE: u32 = 0x0a00_0000;

pub const GAMEPAK2_BASE: u32 = 0x0c00_0000;

/// The ROM offset an address maps to: the three Game Pak windows (from
/// 0x0800_0000, 0x0a00_0000 and 0x0c00_0000, the last open-ended) all mirror
/// the same image.
pub open spec fn rom_offset_spec(addr: u32) -> Option<int> {
    if addr >= GAMEPAK2_BASE {
        Some(addr - GAMEPAK2_BASE)
    } else if addr >= GAMEPAK1_BASE {
        Some(addr - GAMEPAK1_BASE)
    } else if addr >= GAMEPAK0_BASE {
        Some(addr - GAMEPAK0_BASE)
    } else {
        None
    }
}

/// The ROM byte an address reads: 0 outside the image.
pub open spec fn rom_byte(rom: Seq<u8>, addr: u32) -> u8 {
    match rom_offset_spec(addr) {
        Some(o) => if o < rom.len() {
            rom[o]
        } else {
            0
        },
        None => 0,
    }
}

/// Loaded Game Pak ROM image.
#[derive(Debug, Clone, PartialEq, Eq)]
pub struct Cartridge {
    rom: Vec<u8>,
}

impl View for Cartridge {
    type V = Seq<u8>;

    closed spec fn view(&self) -> Seq<u8> {
        self.rom@
    }
}

impl Cartridge {
    pub fn new(rom: Vec<u8>) -> (r: Cartridge)
        ensures
            r@ == rom@,
    {
        Cartridge { rom }
    }

    pub fn len(&self) -> (r: usize)
        ensures
            r == self@.len(),
    {
        self.rom.len()
    }

    pub fn is_empty(&self) -> (r: bool)
        ensures
            r == (self@.len() == 0),
    {
        self.rom.len() == 0
    }

    pub fn read_8(&self, addr: u32) -> (r: u8)
        ensures
            r == rom_byte(self@, addr),
    {
        match self.rom_offset(addr) {
            Some(offset) => if offset < self.rom.len() {
                self.rom[offset]
            } else {
                0
            },
            None => 0,
        }
    }

    /// Little-endian halfword built from `addr` and `addr + 1` (wrapping).
    pub fn read_16(&self, addr: u32) -> (r: u16)
        ensures
            r == (rom_byte(self@, addr) as u16) | ((rom_byte(self@, addr.wrapping_add(1)) as u16)
                << 8u16),
    {
        (self.read_8(addr) as u16) | ((self.read_8(addr.wrapping_add(1)) as u16) << 8u16)
    }

    /// Little-endian word built from the four bytes at `addr` (wrapping).
    pub fn read_32(&self, addr: u32) -> (r: u32)
        ensures
            r == (rom_byte(self@, addr) as u32) | ((rom_byte(self@, addr.wrapping_add(1)) as u32)
                << 8u32) | ((rom_byte(self@, addr.wrapping_add(2)) as u32) << 16u32) | ((rom_byte(
                self@,
                addr.wrapping_add(3),
            ) as u32) << 24u32),
    {
        (self.read_8(addr) as u32) | ((self.read_8(addr.wrapping_add(1)) as u32) << 8u32) | ((
        self.read_8(addr.wrapping_add(2)) as u32) << 16u32) | ((self.read_8(addr.wrapping_add(3))
            as u32) << 24u32)
    }

    fn rom_offset(&self, addr: u32) -> (r: Option<usize>)
        ensures
            self@.len() == 0 ==> r is None,
            self@.len() > 0 ==> match rom_offset_spec(addr) {
                Some(o) => r == Some(o as usize),
                None => r is None,
            },
    {
        if self.rom.len() == 0 {
            return None;
        }
        if addr >= GAMEPAK2_BASE {
            Some((addr - GAMEPAK2_BASE) as usize)
        } else if addr >= GAMEPAK1_BASE {
            Some((addr - GAMEPAK1_BASE) as usize)
        } else if addr >= GAMEPAK0_BASE {
            Some((addr - GAMEPAK0_BASE) as usize)
        } else {
            None
        }
    }
}

/// The three Game Pak windows show the same image.
pub proof fn lemma_gamepak_mirrors(rom: Seq<u8>, offset: u32)
    requires
        offset < 0x0200_0000,
    ensures
        rom_byte(rom, (GAMEPAK0_BASE + offset) as u32) == rom_byte(rom, (GAMEPAK1_BASE + offset) as u32),
        rom_byte(rom, (GAMEPAK1_BASE + offset) as u32) == rom_byte(rom, (GAMEPAK2_BASE + offset) as u32),
{
}

} // verus!
