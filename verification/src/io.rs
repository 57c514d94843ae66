//! The memory-mapped I/O register block: display control and status, the
//! background, window and blending registers, DMA, timers, keypad and the
//! interrupt controller.
use vstd::prelude::*;

verus! {

pub const DISPCNT_ADDR: u32 = 0x0400_0000;
pub const DISPSTAT_ADDR: u32 = 0x0400_0004;
pub const VCOUNT_ADDR: u32 = 0x0400_0006;
pub const BG0CNT_ADDR: u32 = 0x0400_0008;
pub const BG0HOFS_ADDR: u32 = 0x0400_0010;
pub const BG2PA_ADDR: u32 = 0x0400_0020;
pub const WIN0H_ADDR: u32 = 0x0400_0040;
pub const WIN1H_ADDR: u32 = 0x0400_0042;
pub const WIN0V_ADDR: u32 = 0x0400_0044;
pub const WIN1V_ADDR: u32 = 0x0400_0046;
pub const WININ_ADDR: u32 = 0x0400_0048;
pub const WINOUT_ADDR: u32 = 0x0400_004a;
pub const MOSAIC_ADDR: u32 = 0x0400_004c;
pub const BLDCNT_ADDR: u32 = 0x0400_0050;
pub const BLDALPHA_ADDR: u32 = 0x0400_0052;
pub const BLDY_ADDR: u32 = 0x0400_0054;
pub const DMA0SAD_ADDR: u32 = 0x0400_00b0;
pub const DMA0CNT_H_ADDR: u32 = 0x0400_00ba;
pub const TM0CNT_L_ADDR: u32 = 0x0400_0100;
pub const TM0CNT_H_ADDR: u32 = 0x0400_0102;
pub const KEYINPUT_ADDR: u32 = 0x0400_0130;
pub const KEYCNT_ADDR: u32 = 0x0400_0132;
pub const IE_ADDR: u32 = 0x0400_0200;
pub const IF_ADDR: u32 = 0x0400_0202;
pub const WAITCNT_ADDR: u32 = 0x0400_0204;
pub const IME_ADDR: u32 = 0x0400_0208;

pub const IRQ_VBLANK: u16 = 0x0001;
pub const IRQ_HBLANK: u16 = 0x0002;
pub const IRQ_VCOUNT: u16 = 0x0004;
pub const IRQ_TIMER0: u16 = 0x0008;
pub const IRQ_TIMER1: u16 = 0x0010;
pub const IRQ_TIMER2: u16 = 0x0020;
pub const IRQ_TIMER3: u16 = 0x0040;
pub const IRQ_DMA0: u16 = 0x0100;
pub const IRQ_DMA1: u16 = 0x0200;
pub const IRQ_DMA2: u16 = 0x0400;
pub const IRQ_DMA3: u16 = 0x0800;
pub const IRQ_KEYPAD: u16 = 0x1000;

/// The register values: one field per register, one sequence entry per
/// channel, background or window.
#[verifier::ext_equal]
pub struct IoView {
    pub ime: u16,
    pub ie: u16,
    pub if_: u16,
    pub waitcnt: u16,
    pub dispcnt: u16,
    pub dispstat: u16,
    pub vcount: u16,
    pub keyinput: u16,
    pub keycnt: u16,
    pub timer_reload: Seq<u16>,
    pub timer_counter: Seq<u16>,
    pub timer_control: Seq<u16>,
    pub dma_source: Seq<u32>,
    pub dma_dest: Seq<u32>,
    pub dma_count: Seq<u16>,
    pub dma_control: Seq<u16>,
    pub bg_control: Seq<u16>,
    pub bg_hofs: Seq<u16>,
    pub bg_vofs: Seq<u16>,
    pub bg_pa: Seq<u16>,
    pub bg_pb: Seq<u16>,
    pub bg_pc: Seq<u16>,
    pub bg_pd: Seq<u16>,
    pub bg_x: Seq<u32>,
    pub bg_y: Seq<u32>,
    pub win_h: Seq<u16>,
    pub win_v: Seq<u16>,
    pub win_in: u16,
    pub win_out: u16,
    pub mosaic: u16,
    pub bldcnt: u16,
    pub bldalpha: u16,
    pub bldy: u16,
}

/// Which half-register of a DMA channel an address names.
#[derive(Debug, Clone, Copy, PartialEq, Eq, Structural)]
pub enum DmaRegPart {
    SourceLo,
    SourceHi,
    DestLo,
    DestHi,
    Count,
    Control,
}

/// The timer channel and half (true for the control half) of a timer
/// register address.
pub open spec fn timer_reg_spec(addr: u32) -> Option<(int, bool)> {
    if TM0CNT_L_ADDR <= addr <= TM0CNT_H_ADDR + 12 && (addr - TM0CNT_L_ADDR) % 4 <= 2 {
        Some(((addr - TM0CNT_L_ADDR) / 4, (addr - TM0CNT_L_ADDR) % 4 == 2))
    } else {
        None
    }
}

pub open spec fn dma_part_spec(offset: int) -> Option<DmaRegPart> {
    if offset == 0 {
        Some(DmaRegPart::SourceLo)
    } else if offset == 2 {
        Some(DmaRegPart::SourceHi)
    } else if offset == 4 {
        Some(DmaRegPart::DestLo)
    } else if offset == 6 {
        Some(DmaRegPart::DestHi)
    } else if offset == 8 {
        Some(DmaRegPart::Count)
    } else if offset == 10 {
        Some(DmaRegPart::Control)
    } else {
        None
    }
}

/// The DMA channel and register part of a DMA register address (channel
/// blocks of twelve bytes from 0x0400_00b0).
pub open spec fn dma_reg_spec(addr: u32) -> Option<(int, DmaRegPart)> {
    if DMA0SAD_ADDR <= addr < DMA0SAD_ADDR + 48 {
        let index = (addr - DMA0SAD_ADDR) / 12;
        let offset = (addr - DMA0SAD_ADDR) % 12;
        match dma_part_spec(offset) {
            Some(part) => Some((index, part)),
            None => None,
        }
    } else {
        None
    }
}

/// A 28-bit reference-point register value sign-extended to 32 bits.
pub open spec fn sign_extend28(v: u32) -> i32 {
    ((v << 4u32) as i32) >> 4u32
}

/// `addr` rounded down to a multiple of two.
pub open spec fn align2(addr: u32) -> u32 {
    (addr - addr % 2) as u32
}

/// `addr` rounded down to a multiple of four.
pub open spec fn align4(addr: u32) -> u32 {
    (addr - addr % 4) as u32
}

pub open spec fn low16(v: u32) -> u16 {
    v as u16
}

pub open spec fn high16(v: u32) -> u16 {
    (v >> 16u32) as u16
}

pub open spec fn with_low16(v: u32, h: u16) -> u32 {
    (v & 0xffff_0000) | (h as u32)
}

pub open spec fn with_high16(v: u32, h: u16) -> u32 {
    (v & 0x0000_ffff) | ((h as u32) << 16u32)
}

impl IoView {
    /// The registers at power-on: everything zero except KEYINPUT, whose
    /// ten button bits read as released.
    pub open spec fn reset() -> IoView {
        IoView {
            ime: 0,
            ie: 0,
            if_: 0,
            waitcnt: 0,
            dispcnt: 0,
            dispstat: 0,
            vcount: 0,
            keyinput: 0x03ff,
            keycnt: 0,
            timer_reload: seq![0u16; 4],
            timer_counter: seq![0u16; 4],
            timer_control: seq![0u16; 4],
            dma_source: seq![0u32; 4],
            dma_dest: seq![0u32; 4],
            dma_count: seq![0u16; 4],
            dma_control: seq![0u16; 4],
            bg_control: seq![0u16; 4],
            bg_hofs: seq![0u16; 4],
            bg_vofs: seq![0u16; 4],
            bg_pa: seq![0u16; 2],
            bg_pb: seq![0u16; 2],
            bg_pc: seq![0u16; 2],
            bg_pd: seq![0u16; 2],
            bg_x: seq![0u32; 2],
            bg_y: seq![0u32; 2],
            win_h: seq![0u16; 2],
            win_v: seq![0u16; 2],
            win_in: 0,
            win_out: 0,
            mosaic: 0,
            bldcnt: 0,
            bldalpha: 0,
            bldy: 0,
        }
    }

    /// Register and sequence sizes.
    pub open spec fn valid(self) -> bool {
        &&& self.timer_reload.len() == 4
        &&& self.timer_counter.len() == 4
        &&& self.timer_control.len() == 4
        &&& self.dma_source.len() == 4
        &&& self.dma_dest.len() == 4
        &&& self.dma_count.len() == 4
        &&& self.dma_control.len() == 4
        &&& self.bg_control.len() == 4
        &&& self.bg_hofs.len() == 4
        &&& self.bg_vofs.len() == 4
        &&& self.bg_pa.len() == 2
        &&& self.bg_pb.len() == 2
        &&& self.bg_pc.len() == 2
        &&& self.bg_pd.len() == 2
        &&& self.bg_x.len() == 2
        &&& self.bg_y.len() == 2
        &&& self.win_h.len() == 2
        &&& self.win_v.len() == 2
    }

    /// The scanline counter set to `value` (low byte): the V-counter match
    /// flag follows the comparison with DISPSTAT's setting, and a new match
    /// requests the V-counter interrupt when enabled.
    pub open spec fn with_vcount(self, value: u16) -> IoView {
        let compare = (self.dispstat >> 8u16) & 0xff;
        let had_match = self.dispstat & 0x4 != 0;
        let vcount = value & 0xff;
        if vcount == compare {
            let dispstat = self.dispstat | 0x4;
            let if_ = if !had_match && dispstat & 0x20 != 0 {
                self.if_ | IRQ_VCOUNT
            } else {
                self.if_
            };
            IoView { vcount, dispstat, if_, ..self }
        } else {
            IoView { vcount, dispstat: self.dispstat & !0x4u16, ..self }
        }
    }

    /// The V-blank status set or cleared; setting it requests the V-blank
    /// interrupt when enabled.
    pub open spec fn with_vblank(self, active: bool) -> IoView {
        if active {
            let dispstat = self.dispstat | 0x1;
            IoView {
                dispstat,
                if_: if dispstat & 0x8 != 0 {
                    self.if_ | IRQ_VBLANK
                } else {
                    self.if_
                },
                ..self
            }
        } else {
            IoView { dispstat: self.dispstat & !0x1u16, ..self }
        }
    }

    /// The H-blank status set or cleared; setting it requests the H-blank
    /// interrupt when enabled.
    pub open spec fn with_hblank(self, active: bool) -> IoView {
        if active {
            let dispstat = self.dispstat | 0x2;
            IoView {
                dispstat,
                if_: if dispstat & 0x10 != 0 {
                    self.if_ | IRQ_HBLANK
                } else {
                    self.if_
                },
                ..self
            }
        } else {
            IoView { dispstat: self.dispstat & !0x2u16, ..self }
        }
    }

    pub open spec fn with_interrupt(self, mask: u16) -> IoView {
        IoView { if_: self.if_ | mask, ..self }
    }

    /// The halfword register at `addr` (rounded down to even); 0 where no
    /// register is.
    pub open spec fn read16(self, addr: u32) -> u16 {
        let a = align2(addr);
        if a == DISPCNT_ADDR {
            self.dispcnt
        } else if a == DISPSTAT_ADDR {
            self.dispstat
        } else if a == VCOUNT_ADDR {
            self.vcount
        } else if BG0CNT_ADDR <= a < BG0HOFS_ADDR {
            self.bg_control[(a - BG0CNT_ADDR) / 2]
        } else if BG0HOFS_ADDR <= a < BG2PA_ADDR {
            if (a - BG0HOFS_ADDR) % 4 == 0 {
                self.bg_hofs[(a - BG0HOFS_ADDR) / 4]
            } else {
                self.bg_vofs[(a - BG0HOFS_ADDR) / 4]
            }
        } else if BG2PA_ADDR <= a < WIN0H_ADDR {
            let k = (a - BG2PA_ADDR) / 16;
            let r = (a - BG2PA_ADDR) % 16;
            if r == 0 {
                self.bg_pa[k]
            } else if r == 2 {
                self.bg_pb[k]
            } else if r == 4 {
                self.bg_pc[k]
            } else if r == 6 {
                self.bg_pd[k]
            } else if r == 8 {
                low16(self.bg_x[k])
            } else if r == 10 {
                high16(self.bg_x[k])
            } else if r == 12 {
                low16(self.bg_y[k])
            } else {
                high16(self.bg_y[k])
            }
        } else if a == WIN0H_ADDR {
            self.win_h[0]
        } else if a == WIN1H_ADDR {
            self.win_h[1]
        } else if a == WIN0V_ADDR {
            self.win_v[0]
        } else if a == WIN1V_ADDR {
            self.win_v[1]
        } else if a == WININ_ADDR {
            self.win_in
        } else if a == WINOUT_ADDR {
            self.win_out
        } else if a == MOSAIC_ADDR {
            self.mosaic
        } else if a == BLDCNT_ADDR {
            self.bldcnt
        } else if a == BLDALPHA_ADDR {
            self.bldalpha
        } else if a == BLDY_ADDR {
            self.bldy
        } else if a == KEYINPUT_ADDR {
            self.keyinput
        } else if a == KEYCNT_ADDR {
            self.keycnt
        } else if a == IE_ADDR {
            self.ie
        } else if a == IF_ADDR {
            self.if_
        } else if a == WAITCNT_ADDR {
            self.waitcnt
        } else if a == IME_ADDR {
            self.ime
        } else {
            match timer_reg_spec(a) {
                Some((i, high)) => if high {
                    self.timer_control[i]
                } else {
                    self.timer_counter[i]
                },
                None => match dma_reg_spec(a) {
                    Some((i, part)) => match part {
                        DmaRegPart::SourceLo => low16(self.dma_source[i]),
                        DmaRegPart::SourceHi => high16(self.dma_source[i]),
                        DmaRegPart::DestLo => low16(self.dma_dest[i]),
                        DmaRegPart::DestHi => high16(self.dma_dest[i]),
                        DmaRegPart::Count => self.dma_count[i],
                        DmaRegPart::Control => self.dma_control[i],
                    },
                    None => 0,
                },
            }
        }
    }

    /// The byte at `addr`: the low or high half of its halfword register.
    pub open spec fn read8(self, addr: u32) -> u8 {
        if addr % 2 == 0 {
            self.read16(addr) as u8
        } else {
            (self.read16(addr) >> 8u16) as u8
        }
    }

    /// The word at `addr` rounded down to a multiple of four: two halfword
    /// registers, the lower address in the low half.
    pub open spec fn read32(self, addr: u32) -> u32 {
        (self.read16(align4(addr)) as u32) | ((self.read16((align4(addr) + 2) as u32) as u32)
            << 16u32)
    }

    /// A byte store: merged into its halfword register, which is then
    /// written as a halfword.
    pub open spec fn write8(self, addr: u32, val: u8) -> IoView {
        self.write16(
            align2(addr),
            if addr % 2 == 0 {
                (self.read16(addr) & 0xff00) | (val as u16)
            } else {
                (self.read16(addr) & 0x00ff) | ((val as u16) << 8u16)
            },
        )
    }

    /// A word store: the low half at `addr` rounded down to a multiple of
    /// four, then the high half two bytes above.
    pub open spec fn write32(self, addr: u32, val: u32) -> IoView {
        self.write16(align4(addr), val as u16).write16(
            (align4(addr) + 2) as u32,
            (val >> 16u32) as u16,
        )
    }

    /// The registers after a halfword write to `addr` (rounded down to even).
    /// Read-only registers (VCOUNT, KEYINPUT) ignore it; IF clears the bits
    /// written as one; DISPSTAT keeps its three status bits and re-evaluates
    /// the V-counter match; other registers keep the bits they implement.
    pub open spec fn write16(self, addr: u32, val: u16) -> IoView {
        let a = align2(addr);
        if a == DISPCNT_ADDR {
            IoView { dispcnt: val, ..self }
        } else if a == DISPSTAT_ADDR {
            IoView { dispstat: (self.dispstat & 0x7) | (val & !0x7u16), ..self }.with_vcount(
                self.vcount,
            )
        } else if a == VCOUNT_ADDR || a == KEYINPUT_ADDR {
            self
        } else if BG0CNT_ADDR <= a < BG0HOFS_ADDR {
            IoView { bg_control: self.bg_control.update((a - BG0CNT_ADDR) / 2, val), ..self }
        } else if BG0HOFS_ADDR <= a < BG2PA_ADDR {
            let i = (a - BG0HOFS_ADDR) / 4;
            if (a - BG0HOFS_ADDR) % 4 == 0 {
                IoView { bg_hofs: self.bg_hofs.update(i, val & 0x1ff), ..self }
            } else {
                IoView { bg_vofs: self.bg_vofs.update(i, val & 0x1ff), ..self }
            }
        } else if BG2PA_ADDR <= a < WIN0H_ADDR {
            let k = (a - BG2PA_ADDR) / 16;
            let r = (a - BG2PA_ADDR) % 16;
            if r == 0 {
                IoView { bg_pa: self.bg_pa.update(k, val), ..self }
            } else if r == 2 {
                IoView { bg_pb: self.bg_pb.update(k, val), ..self }
            } else if r == 4 {
                IoView { bg_pc: self.bg_pc.update(k, val), ..self }
            } else if r == 6 {
                IoView { bg_pd: self.bg_pd.update(k, val), ..self }
            } else if r == 8 {
                IoView { bg_x: self.bg_x.update(k, with_low16(self.bg_x[k], val)), ..self }
            } else if r == 10 {
                IoView { bg_x: self.bg_x.update(k, with_high16(self.bg_x[k], val & 0x0fff)), ..self }
            } else if r == 12 {
                IoView { bg_y: self.bg_y.update(k, with_low16(self.bg_y[k], val)), ..self }
            } else {
                IoView { bg_y: self.bg_y.update(k, with_high16(self.bg_y[k], val & 0x0fff)), ..self }
            }
        } else if a == WIN0H_ADDR {
            IoView { win_h: self.win_h.update(0, val), ..self }
        } else if a == WIN1H_ADDR {
            IoView { win_h: self.win_h.update(1, val), ..self }
        } else if a == WIN0V_ADDR {
            IoView { win_v: self.win_v.update(0, val), ..self }
        } else if a == WIN1V_ADDR {
            IoView { win_v: self.win_v.update(1, val), ..self }
        } else if a == WININ_ADDR {
            IoView { win_in: val & 0x3f3f, ..self }
        } else if a == WINOUT_ADDR {
            IoView { win_out: val & 0x3f3f, ..self }
        } else if a == MOSAIC_ADDR {
            IoView { mosaic: val, ..self }
        } else if a == BLDCNT_ADDR {
            IoView { bldcnt: val & 0x3fff, ..self }
        } else if a == BLDALPHA_ADDR {
            IoView { bldalpha: val & 0x1f1f, ..self }
        } else if a == BLDY_ADDR {
            IoView { bldy: val & 0x1f, ..self }
        } else if a == KEYCNT_ADDR {
            IoView { keycnt: val & 0xc3ff, ..self }
        } else if a == IE_ADDR {
            IoView { ie: val, ..self }
        } else if a == IF_ADDR {
            IoView { if_: self.if_ & !val, ..self }
        } else if a == WAITCNT_ADDR {
            IoView { waitcnt: val, ..self }
        } else if a == IME_ADDR {
            IoView { ime: val & 1, ..self }
        } else {
            match timer_reg_spec(a) {
                Some((i, high)) => if high {
                    IoView { timer_control: self.timer_control.update(i, val & 0x00c7), ..self }
                } else {
                    IoView { timer_reload: self.timer_reload.update(i, val), ..self }
                },
                None => match dma_reg_spec(a) {
                    Some((i, part)) => match part {
                        DmaRegPart::SourceLo => IoView {
                            dma_source: self.dma_source.update(i, with_low16(self.dma_source[i], val)),
                            ..self
                        },
                        DmaRegPart::SourceHi => IoView {
                            dma_source: self.dma_source.update(i, with_high16(self.dma_source[i], val)),
                            ..self
                        },
                        DmaRegPart::DestLo => IoView {
                            dma_dest: self.dma_dest.update(i, with_low16(self.dma_dest[i], val)),
                            ..self
                        },
                        DmaRegPart::DestHi => IoView {
                            dma_dest: self.dma_dest.update(i, with_high16(self.dma_dest[i], val)),
                            ..self
                        },
                        DmaRegPart::Count => IoView { dma_count: self.dma_count.update(i, val), ..self },
                        DmaRegPart::Control => IoView {
                            dma_control: self.dma_control.update(i, val & 0xf7e0),
                            ..self
                        },
                    },
                    None => self,
                },
            }
        }
    }
}

/// Minimal MMIO register block.
#[derive(Debug, Clone, PartialEq, Eq)]
pub struct IoRegs {
    ime: u16,
    ie: u16,
    if_: u16,
    waitcnt: u16,
    dispcnt: u16,
    dispstat: u16,
    vcount: u16,
    keyinput: u16,
    keycnt: u16,
    timer_reload: [u16; 4],
    timer_counter: [u16; 4],
    timer_control: [u16; 4],
    dma_source: [u32; 4],
    dma_dest: [u32; 4],
    dma_count: [u16; 4],
    dma_control: [u16; 4],
    bg_control: [u16; 4],
    bg_hofs: [u16; 4],
    bg_vofs: [u16; 4],
    bg_pa: [u16; 2],
    bg_pb: [u16; 2],
    bg_pc: [u16; 2],
    bg_pd: [u16; 2],
    bg_x: [u32; 2],
    bg_y: [u32; 2],
    win_h: [u16; 2],
    win_v: [u16; 2],
    win_in: u16,
    win_out: u16,
    mosaic: u16,
    bldcnt: u16,
    bldalpha: u16,
    bldy: u16,
}

impl IoRegs {
    /// Every register block has its fixed size.
    pub proof fn lemma_valid(&self)
        ensures
            self@.valid(),
    {
    }
}

impl View for IoRegs {
    type V = IoView;

    closed spec fn view(&self) -> IoView {
        IoView {
            ime: self.ime,
            ie: self.ie,
            if_: self.if_,
            waitcnt: self.waitcnt,
            dispcnt: self.dispcnt,
            dispstat: self.dispstat,
            vcount: self.vcount,
            keyinput: self.keyinput,
            keycnt: self.keycnt,
            timer_reload: self.timer_reload@,
            timer_counter: self.timer_counter@,
            timer_control: self.timer_control@,
            dma_source: self.dma_source@,
            dma_dest: self.dma_dest@,
            dma_count: self.dma_count@,
            dma_control: self.dma_control@,
            bg_control: self.bg_control@,
            bg_hofs: self.bg_hofs@,
            bg_vofs: self.bg_vofs@,
            bg_pa: self.bg_pa@,
            bg_pb: self.bg_pb@,
            bg_pc: self.bg_pc@,
            bg_pd: self.bg_pd@,
            bg_x: self.bg_x@,
            bg_y: self.bg_y@,
            win_h: self.win_h@,
            win_v: self.win_v@,
            win_in: self.win_in,
            win_out: self.win_out,
            mosaic: self.mosaic,
            bldcnt: self.bldcnt,
            bldalpha: self.bldalpha,
            bldy: self.bldy,
        }
    }
}


/// The timer channel and half of a timer register address.
fn timer_reg(addr: u32) -> (r: Option<(usize, bool)>)
    ensures
        r is Some <==> timer_reg_spec(addr) is Some,
        r matches Some((i, high)) ==> i < 4 && timer_reg_spec(addr) == Some((i as int, high)),
{
    if addr < TM0CNT_L_ADDR || addr > TM0CNT_H_ADDR + 12 {
        return None;
    }
    let offset = addr - TM0CNT_L_ADDR;
    if offset % 4 > 2 {
        return None;
    }
    Some(((offset / 4) as usize, offset % 4 == 2))
}

/// The DMA channel and register part of a DMA register address.
fn dma_reg(addr: u32) -> (r: Option<(usize, DmaRegPart)>)
    ensures
        r is Some <==> dma_reg_spec(addr) is Some,
        r matches Some((i, part)) ==> i < 4 && dma_reg_spec(addr) == Some((i as int, part)),
{
    if addr < DMA0SAD_ADDR || addr >= DMA0SAD_ADDR + 48 {
        return None;
    }
    let index = ((addr - DMA0SAD_ADDR) / 12) as usize;
    let offset = (addr - DMA0SAD_ADDR) % 12;
    let part = if offset == 0 {
        DmaRegPart::SourceLo
    } else if offset == 2 {
        DmaRegPart::SourceHi
    } else if offset == 4 {
        DmaRegPart::DestLo
    } else if offset == 6 {
        DmaRegPart::DestHi
    } else if offset == 8 {
        DmaRegPart::Count
    } else if offset == 10 {
        DmaRegPart::Control
    } else {
        return None;
    };
    Some((index, part))
}

impl IoRegs {
    pub fn new() -> (io: Self)
        ensures
            io@.valid(),
            io@ == IoView::reset(),
    {
        IoRegs {
            ime: 0,
            ie: 0,
            if_: 0,
            waitcnt: 0,
            dispcnt: 0,
            dispstat: 0,
            vcount: 0,
            keyinput: 0x03ff,
            keycnt: 0,
            timer_reload: [0; 4],
            timer_counter: [0; 4],
            timer_control: [0; 4],
            dma_source: [0; 4],
            dma_dest: [0; 4],
            dma_count: [0; 4],
            dma_control: [0; 4],
            bg_control: [0; 4],
            bg_hofs: [0; 4],
            bg_vofs: [0; 4],
            bg_pa: [0; 2],
            bg_pb: [0; 2],
            bg_pc: [0; 2],
            bg_pd: [0; 2],
            bg_x: [0; 2],
            bg_y: [0; 2],
            win_h: [0; 2],
            win_v: [0; 2],
            win_in: 0,
            win_out: 0,
            mosaic: 0,
            bldcnt: 0,
            bldalpha: 0,
            bldy: 0,
        }
    }

    pub fn ime(&self) -> (r: u16)
        ensures
            r == self@.ime,
    {
        self.ime
    }

    pub fn ie(&self) -> (r: u16)
        ensures
            r == self@.ie,
    {
        self.ie
    }

    pub fn if_(&self) -> (r: u16)
        ensures
            r == self@.if_,
    {
        self.if_
    }

    /// The interrupts both enabled in IE and requested in IF.
    pub fn irq_pending_mask(&self) -> (r: u16)
        ensures
            r == self@.ie & self@.if_,
    {
        self.ie & self.if_
    }

    pub fn waitcnt(&self) -> (r: u16)
        ensures
            r == self@.waitcnt,
    {
        self.waitcnt
    }

    pub fn dispcnt(&self) -> (r: u16)
        ensures
            r == self@.dispcnt,
    {
        self.dispcnt
    }

    pub fn dispstat(&self) -> (r: u16)
        ensures
            r == self@.dispstat,
    {
        self.dispstat
    }

    pub fn vcount(&self) -> (r: u16)
        ensures
            r == self@.vcount,
    {
        self.vcount
    }

    pub fn keyinput(&self) -> (r: u16)
        ensures
            r == self@.keyinput,
    {
        self.keyinput
    }

    pub fn keycnt(&self) -> (r: u16)
        ensures
            r == self@.keycnt,
    {
        self.keycnt
    }

    /// The background mode, DISPCNT bits 0-2.
    pub fn display_mode(&self) -> (r: u16)
        ensures
            r == self@.dispcnt & 0x0007,
    {
        self.dispcnt & 0x0007
    }

    /// DISPCNT bit 10.
    pub fn bg2_enabled(&self) -> (r: bool)
        ensures
            r == (self@.dispcnt & 0x0400 != 0),
    {
        (self.dispcnt & 0x0400) != 0
    }

    /// IME bit 0.
    pub fn ime_enabled(&self) -> (r: bool)
        ensures
            r == (self@.ime & 1 != 0),
    {
        (self.ime & 1) != 0
    }

    /// Latch the button lines (ten bits, a set bit for a released button).
    pub fn set_keyinput(&mut self, value: u16)
        ensures
            final(self)@ == (IoView { keyinput: value & 0x03ff, ..old(self)@ }),
    {
        self.keyinput = value & 0x03ff;
    }

    pub fn timer_reload(&self, index: usize) -> (r: u16)
        requires
            index < 4,
        ensures
            r == self@.timer_reload[index as int],
    {
        self.timer_reload[index]
    }

    pub fn timer_counter(&self, index: usize) -> (r: u16)
        requires
            index < 4,
        ensures
            r == self@.timer_counter[index as int],
    {
        self.timer_counter[index]
    }

    pub fn timer_control(&self, index: usize) -> (r: u16)
        requires
            index < 4,
        ensures
            r == self@.timer_control[index as int],
    {
        self.timer_control[index]
    }

    pub fn set_timer_counter(&mut self, index: usize, value: u16)
        requires
            index < 4,
        ensures
            final(self)@ == (IoView {
                timer_counter: old(self)@.timer_counter.update(index as int, value),
                ..old(self)@
            }),
    {
        self.timer_counter[index] = value;
    }

    /// Move to scanline `value`; see `IoView::with_vcount`.
    pub fn set_vcount(&mut self, value: u16)
        ensures
            final(self)@ == old(self)@.with_vcount(value),
    {
        let compare = (self.dispstat >> 8u16) & 0x00ff;
        let had_match = (self.dispstat & 0x0004) != 0;
        self.vcount = value & 0x00ff;
        if self.vcount == compare {
            self.dispstat = self.dispstat | 0x0004;
            if !had_match && (self.dispstat & 0x0020) != 0 {
                self.request_interrupt(IRQ_VCOUNT);
            }
        } else {
            self.dispstat = self.dispstat & !0x0004u16;
        }
    }

    /// Raise the interrupt flags in `mask`.
    pub fn request_interrupt(&mut self, mask: u16)
        ensures
            final(self)@ == old(self)@.with_interrupt(mask),
    {
        self.if_ = self.if_ | mask;
    }

    pub fn set_vblank(&mut self, active: bool)
        ensures
            final(self)@ == old(self)@.with_vblank(active),
    {
        if active {
            self.dispstat = self.dispstat | 0x0001;
            if (self.dispstat & 0x0008) != 0 {
                self.request_interrupt(IRQ_VBLANK);
            }
        } else {
            self.dispstat = self.dispstat & !0x0001u16;
        }
    }

    pub fn set_hblank(&mut self, active: bool)
        ensures
            final(self)@ == old(self)@.with_hblank(active),
    {
        if active {
            self.dispstat = self.dispstat | 0x0002;
            if (self.dispstat & 0x0010) != 0 {
                self.request_interrupt(IRQ_HBLANK);
            }
        } else {
            self.dispstat = self.dispstat & !0x0002u16;
        }
    }

    pub fn dma_source(&self, index: usize) -> (r: u32)
        requires
            index < 4,
        ensures
            r == self@.dma_source[index as int],
    {
        self.dma_source[index]
    }

    pub fn dma_dest(&self, index: usize) -> (r: u32)
        requires
            index < 4,
        ensures
            r == self@.dma_dest[index as int],
    {
        self.dma_dest[index]
    }

    pub fn dma_count(&self, index: usize) -> (r: u16)
        requires
            index < 4,
        ensures
            r == self@.dma_count[index as int],
    {
        self.dma_count[index]
    }

    pub fn dma_control(&self, index: usize) -> (r: u16)
        requires
            index < 4,
        ensures
            r == self@.dma_control[index as int],
    {
        self.dma_control[index]
    }

    pub fn set_dma_source(&mut self, index: usize, value: u32)
        requires
            index < 4,
        ensures
            final(self)@ == (IoView {
                dma_source: old(self)@.dma_source.update(index as int, value),
                ..old(self)@
            }),
    {
        self.dma_source[index] = value;
    }

    pub fn set_dma_dest(&mut self, index: usize, value: u32)
        requires
            index < 4,
        ensures
            final(self)@ == (IoView {
                dma_dest: old(self)@.dma_dest.update(index as int, value),
                ..old(self)@
            }),
    {
        self.dma_dest[index] = value;
    }

    pub fn set_dma_count(&mut self, index: usize, value: u16)
        requires
            index < 4,
        ensures
            final(self)@ == (IoView {
                dma_count: old(self)@.dma_count.update(index as int, value),
                ..old(self)@
            }),
    {
        self.dma_count[index] = value;
    }

    /// Store a DMA control word, keeping the bits the channel implements.
    pub fn set_dma_control(&mut self, index: usize, value: u16)
        requires
            index < 4,
        ensures
            final(self)@ == (IoView {
                dma_control: old(self)@.dma_control.update(index as int, value & 0xf7e0),
                ..old(self)@
            }),
    {
        self.dma_control[index] = value & 0xf7e0;
    }

    /// The byte at `addr`: the low or high half of its halfword register.
    pub fn read_8(&self, addr: u32) -> (r: u8)
        ensures
            r == self@.read8(addr),
    {
        let half = self.read_16(addr - addr % 2);
        if addr % 2 == 0 {
            half as u8
        } else {
            (half >> 8u16) as u8
        }
    }

    /// The halfword register at `addr`; see `IoView::read16`.
    pub fn read_16(&self, addr: u32) -> (r: u16)
        ensures
            r == self@.read16(addr),
    {
        let a = addr - addr % 2;
        if a == DISPCNT_ADDR {
            self.dispcnt
        } else if a == DISPSTAT_ADDR {
            self.dispstat
        } else if a == VCOUNT_ADDR {
            self.vcount
        } else if BG0CNT_ADDR <= a && a < BG0HOFS_ADDR {
            self.bg_control[((a - BG0CNT_ADDR) / 2) as usize]
        } else if BG0HOFS_ADDR <= a && a < BG2PA_ADDR {
            let i = ((a - BG0HOFS_ADDR) / 4) as usize;
            if (a - BG0HOFS_ADDR) % 4 == 0 {
                self.bg_hofs[i]
            } else {
                self.bg_vofs[i]
            }
        } else if BG2PA_ADDR <= a && a < WIN0H_ADDR {
            let k = ((a - BG2PA_ADDR) / 16) as usize;
            let r = (a - BG2PA_ADDR) % 16;
            if r == 0 {
                self.bg_pa[k]
            } else if r == 2 {
                self.bg_pb[k]
            } else if r == 4 {
                self.bg_pc[k]
            } else if r == 6 {
                self.bg_pd[k]
            } else if r == 8 {
                self.bg_x[k] as u16
            } else if r == 10 {
                (self.bg_x[k] >> 16u32) as u16
            } else if r == 12 {
                self.bg_y[k] as u16
            } else {
                (self.bg_y[k] >> 16u32) as u16
            }
        } else if a == WIN0H_ADDR {
            self.win_h[0]
        } else if a == WIN1H_ADDR {
            self.win_h[1]
        } else if a == WIN0V_ADDR {
            self.win_v[0]
        } else if a == WIN1V_ADDR {
            self.win_v[1]
        } else if a == WININ_ADDR {
            self.win_in
        } else if a == WINOUT_ADDR {
            self.win_out
        } else if a == MOSAIC_ADDR {
            self.mosaic
        } else if a == BLDCNT_ADDR {
            self.bldcnt
        } else if a == BLDALPHA_ADDR {
            self.bldalpha
        } else if a == BLDY_ADDR {
            self.bldy
        } else if a == KEYINPUT_ADDR {
            self.keyinput
        } else if a == KEYCNT_ADDR {
            self.keycnt
        } else if a == IE_ADDR {
            self.ie
        } else if a == IF_ADDR {
            self.if_
        } else if a == WAITCNT_ADDR {
            self.waitcnt
        } else if a == IME_ADDR {
            self.ime
        } else {
            match timer_reg(a) {
                Some((i, high)) => if high {
                    self.timer_control[i]
                } else {
                    self.timer_counter[i]
                },
                None => match dma_reg(a) {
                    Some((i, part)) => match part {
                        DmaRegPart::SourceLo => self.dma_source[i] as u16,
                        DmaRegPart::SourceHi => (self.dma_source[i] >> 16u32) as u16,
                        DmaRegPart::DestLo => self.dma_dest[i] as u16,
                        DmaRegPart::DestHi => (self.dma_dest[i] >> 16u32) as u16,
                        DmaRegPart::Count => self.dma_count[i],
                        DmaRegPart::Control => self.dma_control[i],
                    },
                    None => 0,
                },
            }
        }
    }

    /// The word at `addr` (rounded down to a multiple of four): two halfword
    /// registers, the lower address in the low half.
    pub fn read_32(&self, addr: u32) -> (r: u32)
        ensures
            r == self@.read32(addr),
    {
        let a = addr - addr % 4;
        let lo = self.read_16(a) as u32;
        let hi = self.read_16(a + 2) as u32;
        lo | (hi << 16u32)
    }

    /// A byte store: merged into its halfword register, then written as a
    /// halfword.
    pub fn write_8(&mut self, addr: u32, val: u8)
        ensures
            final(self)@ == old(self)@.write8(addr, val),
    {
        let aligned = addr - addr % 2;
        let old_half = self.read_16(aligned);
        let value = if addr % 2 == 0 {
            (old_half & 0xff00) | (val as u16)
        } else {
            (old_half & 0x00ff) | ((val as u16) << 8u16)
        };
        self.write_16(aligned, value);
    }

    /// A halfword store; see `IoView::write16`.
    pub fn write_16(&mut self, addr: u32, val: u16)
        ensures
            final(self)@ == old(self)@.write16(addr, val),
            final(self)@.valid(),
    {
        let a = addr - addr % 2;
        if a == DISPCNT_ADDR {
            self.dispcnt = val;
        } else if a == DISPSTAT_ADDR {
            let status = self.dispstat & 0x0007;
            self.dispstat = status | (val & !0x0007u16);
            let line = self.vcount;
            self.set_vcount(line);
        } else if a == VCOUNT_ADDR || a == KEYINPUT_ADDR {
        } else if BG0CNT_ADDR <= a && a < BG0HOFS_ADDR {
            self.bg_control[((a - BG0CNT_ADDR) / 2) as usize] = val;
        } else if BG0HOFS_ADDR <= a && a < BG2PA_ADDR {
            let i = ((a - BG0HOFS_ADDR) / 4) as usize;
            if (a - BG0HOFS_ADDR) % 4 == 0 {
                self.bg_hofs[i] = val & 0x01ff;
            } else {
                self.bg_vofs[i] = val & 0x01ff;
            }
        } else if BG2PA_ADDR <= a && a < WIN0H_ADDR {
            let k = ((a - BG2PA_ADDR) / 16) as usize;
            let r = (a - BG2PA_ADDR) % 16;
            if r == 0 {
                self.bg_pa[k] = val;
            } else if r == 2 {
                self.bg_pb[k] = val;
            } else if r == 4 {
                self.bg_pc[k] = val;
            } else if r == 6 {
                self.bg_pd[k] = val;
            } else if r == 8 {
                self.bg_x[k] = (self.bg_x[k] & 0xffff_0000) | (val as u32);
            } else if r == 10 {
                self.bg_x[k] = (self.bg_x[k] & 0x0000_ffff) | (((val & 0x0fff) as u32) << 16u32);
            } else if r == 12 {
                self.bg_y[k] = (self.bg_y[k] & 0xffff_0000) | (val as u32);
            } else {
                self.bg_y[k] = (self.bg_y[k] & 0x0000_ffff) | (((val & 0x0fff) as u32) << 16u32);
            }
        } else if a == WIN0H_ADDR {
            self.win_h[0] = val;
        } else if a == WIN1H_ADDR {
            self.win_h[1] = val;
        } else if a == WIN0V_ADDR {
            self.win_v[0] = val;
        } else if a == WIN1V_ADDR {
            self.win_v[1] = val;
        } else if a == WININ_ADDR {
            self.win_in = val & 0x3f3f;
        } else if a == WINOUT_ADDR {
            self.win_out = val & 0x3f3f;
        } else if a == MOSAIC_ADDR {
            self.mosaic = val;
        } else if a == BLDCNT_ADDR {
            self.bldcnt = val & 0x3fff;
        } else if a == BLDALPHA_ADDR {
            self.bldalpha = val & 0x1f1f;
        } else if a == BLDY_ADDR {
            self.bldy = val & 0x001f;
        } else if a == KEYCNT_ADDR {
            self.keycnt = val & 0xc3ff;
        } else if a == IE_ADDR {
            self.ie = val;
        } else if a == IF_ADDR {
            self.if_ = self.if_ & !val;
        } else if a == WAITCNT_ADDR {
            self.waitcnt = val;
        } else if a == IME_ADDR {
            self.ime = val & 1;
        } else {
            match timer_reg(a) {
                Some((i, high)) => if high {
                    self.timer_control[i] = val & 0x00c7;
                } else {
                    self.timer_reload[i] = val;
                },
                None => match dma_reg(a) {
                    Some((i, part)) => match part {
                        DmaRegPart::SourceLo => {
                            self.dma_source[i] = (self.dma_source[i] & 0xffff_0000) | (val as u32);
                        },
                        DmaRegPart::SourceHi => {
                            self.dma_source[i] = (self.dma_source[i] & 0x0000_ffff) | ((val as u32)
                                << 16u32);
                        },
                        DmaRegPart::DestLo => {
                            self.dma_dest[i] = (self.dma_dest[i] & 0xffff_0000) | (val as u32);
                        },
                        DmaRegPart::DestHi => {
                            self.dma_dest[i] = (self.dma_dest[i] & 0x0000_ffff) | ((val as u32)
                                << 16u32);
                        },
                        DmaRegPart::Count => {
                            self.dma_count[i] = val;
                        },
                        DmaRegPart::Control => {
                            self.set_dma_control(i, val);
                        },
                    },
                    None => {},
                },
            }
        }
    }

    /// A word store: the low half to `addr` (rounded down to a multiple of
    /// four), then the high half two bytes above.
    pub fn write_32(&mut self, addr: u32, val: u32)
        ensures
            final(self)@ == old(self)@.write32(addr, val),
            final(self)@.valid(),
    {
        let a = addr - addr % 4;
        self.write_16(a, val as u16);
        self.write_16(a + 2, (val >> 16u32) as u16);
    }

    /// The priority of background `index` (BGxCNT bits 0-1; 0 is frontmost).
    pub fn bg_priority(&self, index: usize) -> (r: u8)
        requires
            index < 4,
        ensures
            r == (self@.bg_control[index as int] & 3) as u8,
    {
        (self.bg_control[index] & 3) as u8
    }

    /// DISPCNT bit 8 + `index`.
    pub fn bg_enabled(&self, index: usize) -> (r: bool)
        requires
            index < 4,
        ensures
            r == ((self@.dispcnt >> (8 + index) as u16) & 1 != 0),
    {
        ((self.dispcnt >> (8 + index) as u16) & 1) != 0
    }

    pub fn bg_hofs(&self, index: usize) -> (r: u16)
        requires
            index < 4,
        ensures
            r == self@.bg_hofs[index as int],
    {
        self.bg_hofs[index]
    }

    pub fn bg_vofs(&self, index: usize) -> (r: u16)
        requires
            index < 4,
        ensures
            r == self@.bg_vofs[index as int],
    {
        self.bg_vofs[index]
    }

    /// The 16 KiB tile-data block of background `index` (BGxCNT bits 2-3).
    pub fn bg_char_base_block(&self, index: usize) -> (r: usize)
        requires
            index < 4,
        ensures
            r == ((self@.bg_control[index as int] >> 2u16) & 3) as usize,
    {
        ((self.bg_control[index] >> 2u16) & 3) as usize
    }

    /// The 2 KiB map block of background `index` (BGxCNT bits 8-12).
    pub fn bg_screen_base_block(&self, index: usize) -> (r: usize)
        requires
            index < 4,
        ensures
            r == ((self@.bg_control[index as int] >> 8u16) & 0x1f) as usize,
    {
        ((self.bg_control[index] >> 8u16) & 0x1f) as usize
    }

    /// BGxCNT bit 7: one byte per pixel rather than one nibble.
    pub fn bg_palette_256(&self, index: usize) -> (r: bool)
        requires
            index < 4,
        ensures
            r == (self@.bg_control[index as int] & 0x0080 != 0),
    {
        (self.bg_control[index] & 0x0080) != 0
    }

    /// The screen size of background `index` (BGxCNT bits 14-15).
    pub fn bg_size(&self, index: usize) -> (r: u8)
        requires
            index < 4,
        ensures
            r == ((self@.bg_control[index as int] >> 14u16) & 3) as u8,
    {
        ((self.bg_control[index] >> 14u16) & 3) as u8
    }

    /// BGxCNT bit 13: an affine background wraps around instead of showing
    /// the backdrop outside its area.
    pub fn bg_wrap(&self, index: usize) -> (r: bool)
        requires
            index < 4,
        ensures
            r == (self@.bg_control[index as int] & 0x2000 != 0),
    {
        (self.bg_control[index] & 0x2000) != 0
    }

    /// The affine matrix (PA, PB, PC, PD, signed 8.8 fixed point) of
    /// background 2 or 3; `None` for the text-only backgrounds 0 and 1.
    pub fn bg_affine_matrix(&self, index: usize) -> (r: Option<(i16, i16, i16, i16)>)
        ensures
            r == (if index == 2 || index == 3 {
                let k = index - 2;
                Some(
                    (
                        self@.bg_pa[k] as i16,
                        self@.bg_pb[k] as i16,
                        self@.bg_pc[k] as i16,
                        self@.bg_pd[k] as i16,
                    ),
                )
            } else {
                None
            }),
    {
        if index == 2 || index == 3 {
            let k = index - 2;
            Some(
                (
                    self.bg_pa[k] as i16,
                    self.bg_pb[k] as i16,
                    self.bg_pc[k] as i16,
                    self.bg_pd[k] as i16,
                ),
            )
        } else {
            None
        }
    }

    /// The reference point (signed 20.8 fixed point, 28 bits sign-extended)
    /// of background 2 or 3; `None` for backgrounds 0 and 1.
    pub fn bg_affine_ref_point(&self, index: usize) -> (r: Option<(i32, i32)>)
        ensures
            r == (if index == 2 || index == 3 {
                let k = index - 2;
                Some((sign_extend28(self@.bg_x[k]), sign_extend28(self@.bg_y[k])))
            } else {
                None
            }),
    {
        if index == 2 || index == 3 {
            let k = index - 2;
            Some((((self.bg_x[k] << 4u32) as i32) >> 4u32, ((self.bg_y[k] << 4u32) as i32) >> 4u32))
        } else {
            None
        }
    }

    /// DISPCNT bit 12: sprites shown.
    pub fn obj_enabled(&self) -> (r: bool)
        ensures
            r == (self@.dispcnt & 0x1000 != 0),
    {
        (self.dispcnt & 0x1000) != 0
    }

    /// DISPCNT bit 6: sprite tiles laid out one after another.
    pub fn obj_mapping_1d(&self) -> (r: bool)
        ensures
            r == (self@.dispcnt & 0x0040 != 0),
    {
        (self.dispcnt & 0x0040) != 0
    }

    /// DISPCNT bit 4: the second bitmap frame is shown.
    pub fn display_frame_select(&self) -> (r: bool)
        ensures
            r == (self@.dispcnt & 0x0010 != 0),
    {
        (self.dispcnt & 0x0010) != 0
    }

    /// DISPCNT bit 13.
    pub fn win0_enabled(&self) -> (r: bool)
        ensures
            r == (self@.dispcnt & 0x2000 != 0),
    {
        (self.dispcnt & 0x2000) != 0
    }

    /// DISPCNT bit 14.
    pub fn win1_enabled(&self) -> (r: bool)
        ensures
            r == (self@.dispcnt & 0x4000 != 0),
    {
        (self.dispcnt & 0x4000) != 0
    }

    /// DISPCNT bit 15.
    pub fn obj_window_enabled(&self) -> (r: bool)
        ensures
            r == (self@.dispcnt & 0x8000 != 0),
    {
        (self.dispcnt & 0x8000) != 0
    }

    /// WINxH of window `index` (left edge in the high byte, right edge
    /// exclusive in the low byte).
    pub fn window_h(&self, index: usize) -> (r: u16)
        requires
            index < 2,
        ensures
            r == self@.win_h[index as int],
    {
        self.win_h[index]
    }

    /// WINxV of window `index` (top edge in the high byte, bottom edge
    /// exclusive in the low byte).
    pub fn window_v(&self, index: usize) -> (r: u16)
        requires
            index < 2,
        ensures
            r == self@.win_v[index as int],
    {
        self.win_v[index]
    }

    pub fn win_in(&self) -> (r: u16)
        ensures
            r == self@.win_in,
    {
        self.win_in
    }

    pub fn win_out(&self) -> (r: u16)
        ensures
            r == self@.win_out,
    {
        self.win_out
    }

    pub fn bldcnt(&self) -> (r: u16)
        ensures
            r == self@.bldcnt,
    {
        self.bldcnt
    }

    pub fn bldalpha(&self) -> (r: u16)
        ensures
            r == self@.bldalpha,
    {
        self.bldalpha
    }

    pub fn bldy(&self) -> (r: u16)
        ensures
            r == self@.bldy,
    {
        self.bldy
    }
}

impl Default for IoRegs {
    fn default() -> (io: Self)
        ensures
            io@ == IoView::reset(),
    {
        IoRegs::new()
    }
}


pub(crate) proof fn lemma_halfword_bits(d: u16)
    by (bit_vector)
    ensures
        (d | 4u16) & 4u16 != 0,
        ((d | 4u16) >> 8u16) & 0xff == (d >> 8u16) & 0xff,
        ((d & !4u16) >> 8u16) & 0xff == (d >> 8u16) & 0xff,
        ((d | 4u16) & 0x20u16) == (d & 0x20u16),
        ((d & !4u16) & 0x20u16) == (d & 0x20u16),
        (d | 4u16) | 4u16 == d | 4u16,
        (d & !4u16) & !4u16 == d & !4u16,
        ((d & !0x8000u16) & 0xf7e0u16) & 0x8000u16 == 0,
        (d | 1u16) & 1u16 != 0,
        (d | 2u16) & 2u16 != 0,
        (d & !2u16) & 2u16 == 0,
        (d | 1u16) & 2u16 == d & 2u16,
        (d & !1u16) & 2u16 == d & 2u16,
        (d | 4u16) & 2u16 == d & 2u16,
        (d & !4u16) & 2u16 == d & 2u16,
        (d | 4u16) & 1u16 == d & 1u16,
        (d & !4u16) & 1u16 == d & 1u16,
        d < 256 ==> d & 0xff == d,
        d & 0x400u16 == 0 ==> (d | 0x400u16) & 0x400u16 != 0 && (d | 0x400u16) % 1024 == d % 1024 && (d
            | 0x400u16) / 4096 == d / 4096 && (d | 0x400u16) & 0x800u16 == d & 0x800u16,
        d & 0x800u16 == 0 ==> (d | 0x800u16) & 0x800u16 != 0 && (d | 0x800u16) % 1024 == d % 1024 && (d
            | 0x800u16) / 4096 == d / 4096 && (d | 0x800u16) & 0x400u16 == d & 0x400u16,
        d & 0x1000u16 == 0 ==> (d | 0x1000u16) & 0x1000u16 != 0 && (d | 0x1000u16) % 512 == d % 512 && (d
            | 0x1000u16) / 0x4000 == d / 0x4000 && (d | 0x1000u16) & 0x2000u16 == d & 0x2000u16,
        d & 0x2000u16 == 0 ==> (d | 0x2000u16) & 0x2000u16 != 0 && (d | 0x2000u16) % 512 == d % 512 && (d
            | 0x2000u16) / 0x4000 == d / 0x4000 && (d | 0x2000u16) & 0x1000u16 == d & 0x1000u16,
{
}

/// The fields of a background control value are within their widths.
pub proof fn lemma_control_fields(v: u16)
    by (bit_vector)
    ensures
        v & 3 <= 3,
        (v >> 2u16) & 3 <= 3,
        (v >> 8u16) & 0x1f <= 0x1f,
        (v >> 14u16) & 3 <= 3,
        v & 0x1f <= 0x1f,
        v & 0xff <= 0xff,
        v >> 8u16 <= 0xff,
{
}

proof fn lemma_word_halves(w: u32, v: u32)
    by (bit_vector)
    ensures
        ((((w & 0xffff_0000u32) | ((v as u16) as u32)) & 0x0000_ffffu32) | ((((v >> 16u32) as u16)
            as u32) << 16u32)) == v,
        (((v as u16) as u32) | ((((v >> 16u32) as u16) as u32) << 16u32)) == v,
{
}

/// Registers that keep every bit written read back exactly what was
/// written: DISPCNT, IE, WAITCNT, MOSAIC, the window edges, the background
/// controls and the affine parameters.
pub proof fn lemma_plain_register_round_trip(io: IoView, addr: u32, val: u16)
    requires
        io.valid(),
        addr == DISPCNT_ADDR || addr == IE_ADDR || addr == WAITCNT_ADDR || addr == MOSAIC_ADDR
            || addr == WIN0H_ADDR || addr == WIN1H_ADDR || addr == WIN0V_ADDR || addr == WIN1V_ADDR
            || (BG0CNT_ADDR <= addr < BG0HOFS_ADDR && addr % 2 == 0) || (BG2PA_ADDR <= addr
            < WIN0H_ADDR && addr % 16 < 8 && addr % 2 == 0),
    ensures
        io.write16(addr, val).read16(addr) == val,
        io.write16(addr, val).valid(),
{
}

/// A write to IF clears the flags written as one and leaves every other
/// register as it was.
pub proof fn lemma_interrupt_flags_write_one_to_clear(io: IoView, val: u16)
    ensures
        io.write16(IF_ADDR, val) == (IoView { if_: io.if_ & !val, ..io }),
{
}

/// VCOUNT and KEYINPUT ignore writes.
pub proof fn lemma_read_only_registers(io: IoView, addr: u32, val: u16)
    requires
        addr == VCOUNT_ADDR || addr == KEYINPUT_ADDR,
    ensures
        io.write16(addr, val) == io,
{
}

/// Staying on the matching scanline requests the V-counter interrupt only
/// once: a second move to the same line changes no interrupt flag.
pub proof fn lemma_vcount_irq_once(io: IoView, line: u16)
    ensures
        io.with_vcount(line).with_vcount(line).if_ == io.with_vcount(line).if_,
        io.with_vcount(line).with_vcount(line) == io.with_vcount(line),
{
    lemma_halfword_bits(io.dispstat);
}

/// A word written to a DMA source or destination address register reads
/// back unchanged.
pub proof fn lemma_dma_address_round_trip(io: IoView, channel: int, dest: bool, val: u32)
    requires
        io.valid(),
        0 <= channel < 4,
    ensures
        ({
            let addr = (DMA0SAD_ADDR + 12 * channel + if dest { 4int } else { 0int }) as u32;
            let after = io.write16(addr, val as u16).write16((addr + 2) as u32, (val >> 16u32) as u16);
            &&& (after.read16(addr) as u32) | ((after.read16((addr + 2) as u32) as u32) << 16u32)
                == val
            &&& after.valid()
        }),
{
    let addr = (DMA0SAD_ADDR + 12 * channel + if dest { 4int } else { 0int }) as u32;
    let w = if dest { io.dma_dest[channel] } else { io.dma_source[channel] };
    lemma_word_halves(w, val);
    assert(timer_reg_spec(addr) is None);
    assert(timer_reg_spec((addr + 2) as u32) is None);
    assert(dma_reg_spec(addr) == Some((channel, if dest { DmaRegPart::DestLo } else { DmaRegPart::SourceLo })));
}

/// Every store keeps the register block's shape.
pub proof fn lemma_writes_keep_valid(io: IoView, addr: u32, v8: u8, v16: u16, v32: u32)
    requires
        io.valid(),
    ensures
        io.write8(addr, v8).valid(),
        io.write16(addr, v16).valid(),
        io.write32(addr, v32).valid(),
{
    let a = align4(addr);
    assert(io.write16(a, v32 as u16).valid());
}

} // verus!
