//! DMA of the GG: OAM DMA (DMG and CGB) and HDMA/GDMA VRAM transfers
//! (CGB only). The system copies the bytes at the addresses these give.
use vstd::prelude::*;
use crate::ggc::scheduling::GGEvent;
use crate::scheduler::{can_schedule_at, schedule_result, without_kind, Scheduler};

verus! {

/// Source address of an OAM DMA started by writing `dma` to the DMA
/// register: `dma * 0x100`, with echo RAM above 0xDF00 mapped back to WRAM.
pub open spec fn oam_source(dma: u8) -> u16 {
    let src = dma * 0x100;
    (if src > 0xDF00 { src - 0x2000 } else { src }) as u16
}

/// OAM DMA transfer available on DMG and CGB: the first address the
/// 0xA0 bytes of OAM are copied from.
pub fn oam_dma_source(dma: u8) -> (r: u16)
    ensures
        r == oam_source(dma),
{
    let src = dma as u16 * 0x100;
    if src > 0xDF00 {
        src - 0x2000
    } else {
        src
    }
}

/// Source address an HDMA start takes from its registers.
pub open spec fn hdma_source(src_low: u8, src_high: u8) -> u16 {
    (src_low / 16 * 16 + src_high * 256) as u16
}

/// Destination address an HDMA start takes from its registers: always
/// in VRAM.
pub open spec fn hdma_dest(dst_low: u8, dst_high: u8) -> u16 {
    (dst_low / 16 * 16 + (dst_high % 32) * 256 + 0x8000) as u16
}

/// HDMA VRAM transfer available only on CGB.
#[derive(Copy, Clone, PartialEq, Eq, Structural, Debug)]
pub struct Hdma {
    pub source: u16,
    pub dest: u16,
    pub transfer_left: i16,
    pub hblank_transferring: bool,
}

impl Default for Hdma {
    fn default() -> (h: Self)
        ensures
            h == (Hdma { source: 0, dest: 0, transfer_left: 0, hblank_transferring: false }),
    {
        Hdma { source: 0, dest: 0, transfer_left: 0, hblank_transferring: false }
    }
}

impl Hdma {
    /// A write to the HDMA start register (HDMA5). During an HBlank
    /// transfer, a write with bit 7 clear stops it. Otherwise a transfer of
    /// `(value & 0x7F) + 1` blocks starts: all at once (GDMA, bit 7 clear)
    /// or one block per HBlank (bit 7 set), whose steps the PPU schedules
    /// unless the LCD is off (`lcd_on` false). The other arguments are the
    /// source and destination registers (HDMA1-4).
    pub fn write_start(
        &mut self,
        sched: &mut Scheduler<GGEvent>,
        value: u8,
        src_low: u8,
        src_high: u8,
        dst_low: u8,
        dst_high: u8,
        lcd_on: bool,
    )
        requires
            old(sched).wf(),
            !(old(self).hblank_transferring && value < 0x80) && !(value >= 0x80 && lcd_on)
                ==> old(sched).can_schedule(2),
        ensures
            final(sched).wf(),
            old(self).hblank_transferring && value < 0x80 ==> {
                &&& *final(self) == (Hdma {
                    hblank_transferring: false,
                    transfer_left: (old(self).transfer_left | 0x80) as i16,
                    ..*old(self)
                })
                &&& final(sched).time() == old(sched).time()
                &&& final(sched).pending() == without_kind(
                    old(sched).pending(),
                    GGEvent::HdmaTransferStep,
                )
            },
            !(old(self).hblank_transferring && value < 0x80) ==> {
                &&& *final(self) == (Hdma {
                    source: hdma_source(src_low, src_high),
                    dest: hdma_dest(dst_low, dst_high),
                    transfer_left: (value % 0x80) as i16,
                    hblank_transferring: value >= 0x80,
                })
                &&& value < 0x80 ==> (final(sched).time(), final(sched).pending())
                    == schedule_result(
                    old(sched).time(),
                    old(sched).pending(),
                    GGEvent::GdmaTransfer,
                    2,
                )
                &&& value >= 0x80 && !lcd_on ==> (final(sched).time(), final(sched).pending())
                    == schedule_result(
                    old(sched).time(),
                    old(sched).pending(),
                    GGEvent::HdmaTransferStep,
                    2,
                )
                &&& value >= 0x80 && lcd_on ==> final(sched).time() == old(sched).time()
                    && final(sched).pending() == old(sched).pending()
            },
    {
        if self.hblank_transferring && value < 0x80 {
            self.hblank_transferring = false;
            self.transfer_left = self.transfer_left | 0x80;
            sched.cancel(GGEvent::HdmaTransferStep);
        } else {
            self.source = (src_low as u16 / 16 * 16) + ((src_high as u16) * 256);
            self.dest = (dst_low as u16 / 16 * 16) + ((dst_high % 32) as u16 * 256) + 0x8000;
            self.transfer_left = (value % 0x80) as i16;
            self.hblank_transferring = value >= 0x80;

            if !self.hblank_transferring {
                sched.schedule(GGEvent::GdmaTransfer, 2);
            } else if !lcd_on {
                // Only reschedule when PPU is off, when it is not, PPU will schedule next
                // transfer step.
                sched.schedule(GGEvent::HdmaTransferStep, 2);
            }
        }
    }

    /// Advance the transfer by one block of 0x10 bytes: returns the source
    /// and destination the block is copied between (the system copies it
    /// and advances the clock by 8 cycles).
    pub fn advance_transfer(&mut self) -> (r: (u16, u16))
        requires
            old(self).source + 0x10 <= u16::MAX,
            old(self).dest + 0x10 <= u16::MAX,
            old(self).transfer_left > i16::MIN,
        ensures
            r == (old(self).source, old(self).dest),
            *final(self) == (Hdma {
                source: (old(self).source + 0x10) as u16,
                dest: (old(self).dest + 0x10) as u16,
                transfer_left: (old(self).transfer_left - 1) as i16,
                ..*old(self)
            }),
    {
        let r = (self.source, self.dest);
        self.source = self.source + 0x10;
        self.dest = self.dest + 0x10;
        self.transfer_left = self.transfer_left - 1;
        r
    }

    /// After an HBlank block was transferred: the transfer ends once no
    /// block is left, else the next step is scheduled if the LCD is off.
    pub fn hdma_block_done(&mut self, sched: &mut Scheduler<GGEvent>, lcd_on: bool)
        requires
            old(sched).wf(),
            old(self).transfer_left >= 0 && !lcd_on ==> old(sched).can_schedule(2),
        ensures
            final(sched).wf(),
            old(self).transfer_left < 0 ==> {
                &&& *final(self) == (Hdma { hblank_transferring: false, transfer_left: 0xFF, ..*old(self) })
                &&& final(sched).time() == old(sched).time()
                &&& final(sched).pending() == old(sched).pending()
            },
            old(self).transfer_left >= 0 ==> *final(self) == *old(self),
            old(self).transfer_left >= 0 && !lcd_on ==> (final(sched).time(), final(sched).pending())
                == schedule_result(old(sched).time(), old(sched).pending(), GGEvent::HdmaTransferStep, 2),
            old(self).transfer_left >= 0 && lcd_on ==> final(sched).time() == old(sched).time()
                && final(sched).pending() == old(sched).pending(),
    {
        if self.transfer_left < 0 {
            self.hblank_transferring = false;
            self.transfer_left = 0xFF;
        } else if !lcd_on {
            // Only reschedule when PPU is off, when it is not, PPU will schedule next
            // transfer step.
            sched.schedule(GGEvent::HdmaTransferStep, 2);
        }
    }
}

} // verus!
