//! NDS's 2x4 DMA channels, one set per CPU: when a channel starts, what
//! its transfer looks like and what happens once it is done. The NDS7's
//! channels work like the GGA's; the NDS9's have other start timings and
//! wider address registers.
//!
//! The system performs the bus accesses of a transfer; it asks the
//! channels for the addresses to use.
use vstd::prelude::*;
use crate::bits::wrap_add;
use crate::gga::dma::{ctrl_bit, step_of, TransferSource};

verus! {

/// Reason for why a DMA transfer attempt was initiated.
#[derive(Debug, Copy, Clone, PartialEq, Eq, Structural)]
pub enum Reason {
    /// The control register was written.
    CtrlWrite,
    /// The PPU entered HBlank.
    HBlank,
    /// The PPU entered VBlank.
    VBlank,
    /// Main memory display (?)
    MemoryDisplay,
    /// Cartridge has data
    CartridgeReady,
}

/// Bits of the source address a channel keeps.
pub open spec fn src_mask(nds9: bool, idx: u16) -> u32 {
    if nds9 || idx != 0 {
        0xFFF_FFFF
    } else {
        0x7FF_FFFF
    }
}

/// Bits of the destination address a channel keeps.
pub open spec fn dst_mask(nds9: bool, idx: u16) -> u32 {
    if nds9 || idx == 3 {
        0xFFF_FFFF
    } else {
        0x7FF_FFFF
    }
}

/// If a channel starts for this reason.
pub open spec fn triggered(nds9: bool, ctrl: u16, reason: Reason, vcount: u16) -> bool {
    &&& ctrl_bit(ctrl, 15)
    &&& if !nds9 {
        let t = (ctrl / 0x1000) % 4;
        if t == 0 {
            reason == Reason::CtrlWrite
        } else if t == 1 {
            reason == Reason::VBlank
        } else if t == 2 {
            reason == Reason::CartridgeReady
        } else {
            false
        }
    } else {
        let t = (ctrl / 0x800) % 8;
        if t == 0 {
            reason == Reason::CtrlWrite
        } else if t == 1 {
            reason == Reason::VBlank
        } else if t == 2 {
            reason == Reason::HBlank && vcount < 160
        } else if t == 3 {
            reason == Reason::HBlank && vcount == 0
        } else if t == 5 {
            reason == Reason::CartridgeReady
        } else {
            false
        }
    }
}

/// Number of units a transfer moves.
pub open spec fn transfer_count(nds9: bool, idx: u16, count_reg: u16) -> u32 {
    if count_reg == 0 && nds9 {
        0x20_0000
    } else if count_reg == 0 && idx == 3 {
        0x1_0000
    } else if count_reg == 0 {
        0x4000
    } else {
        count_reg as u32
    }
}

/// A transfer to perform.
#[derive(Debug, Copy, Clone, PartialEq, Eq, Structural)]
pub struct Transfer {
    /// The channel.
    pub idx: u16,
    /// Units to move.
    pub count: u32,
    /// Step of the source address after each unit, in bytes.
    pub src_mod: i32,
    /// Step of the destination address after each unit, in bytes.
    pub dst_mod: i32,
    /// Units are words (else halfwords).
    pub word: bool,
}

/// NDS's DMA channels of one CPU.
pub struct Dmas {
    /// Internal source registers
    pub src: [u32; 4],
    /// Internal destination registers
    pub dst: [u32; 4],
    /// Internal cache shared between DMAs
    pub cache: u32,
}

impl Default for Dmas {
    fn default() -> (d: Self)
        ensures
            d.src@ == seq![0u32, 0, 0, 0],
            d.dst@ == seq![0u32, 0, 0, 0],
            d.cache == 0,
    {
        let d = Dmas { src: [0; 4], dst: [0; 4], cache: 0 };
        proof {
            assert(d.src@ =~= seq![0u32, 0, 0, 0]);
            assert(d.dst@ =~= seq![0u32, 0, 0, 0]);
        }
        d
    }
}

impl Dmas {
    /// Get the base address for a DMA (First register: SRC low)
    pub fn base_addr(idx: u16) -> (r: u32)
        ensures
            r == 0xB0 + idx * 0xC,
    {
        0xB0 + (idx as u32 * 0xC)
    }

    /// Get the step with which to change SRC/DST registers after every write.
    /// Multiplied by 2 for word-sized DMAs.
    /// Inc+Reload handled separately.
    pub fn get_step(bits: u16) -> (r: i32)
        ensures
            r == step_of(bits),
    {
        match bits {
            0 => 2,
            1 => -2,
            _ => 0,
        }
    }

    /// Update a given DMA after it's control register was written: a
    /// channel that turns on reloads its internal addresses. Returns the
    /// value to store in the control register; the system then steps the
    /// channel with the written value, for `Reason::CtrlWrite`.
    pub fn ctrl_write(
        &mut self,
        nds9: bool,
        idx: u16,
        old_ctrl: u16,
        new_ctrl: u16,
        src_reg: u32,
        dst_reg: u32,
    ) -> (stored: u16)
        requires
            idx < 4,
        ensures
            stored == new_ctrl & if idx == 3 { 0xFFE0u16 } else { 0xF7E0u16 },
            !ctrl_bit(old_ctrl, 15) && ctrl_bit(new_ctrl, 15) ==> {
                &&& final(self).src@ == old(self).src@.update(
                    idx as int,
                    src_reg & src_mask(nds9, idx),
                )
                &&& final(self).dst@ == old(self).dst@.update(
                    idx as int,
                    dst_reg & dst_mask(nds9, idx),
                )
            },
            !(!ctrl_bit(old_ctrl, 15) && ctrl_bit(new_ctrl, 15)) ==> final(self).src == old(
                self,
            ).src && final(self).dst == old(self).dst,
            final(self).cache == old(self).cache,
    {
        if !((old_ctrl >> 15) & 1 == 1) && (new_ctrl >> 15) & 1 == 1 {
            // Reload SRC/DST
            let sm: u32 = if nds9 || idx != 0 {
                0xFFF_FFFF
            } else {
                0x7FF_FFFF
            };
            let dm: u32 = if nds9 || idx == 3 {
                0xFFF_FFFF
            } else {
                0x7FF_FFFF
            };
            self.src[idx as usize] = src_reg & sm;
            self.dst[idx as usize] = dst_reg & dm;
        }
        new_ctrl & if idx == 3 {
            0xFFE0
        } else {
            0xF7E0
        }
    }

    /// Step a DMA: the transfer to perform, if the channel is triggered.
    /// `count_reg` and `dst_reg` are the channel's count and destination
    /// registers.
    pub fn step_dma(
        &mut self,
        nds9: bool,
        idx: u16,
        ctrl: u16,
        reason: Reason,
        vcount: u16,
        count_reg: u16,
        dst_reg: u32,
    ) -> (r: Option<Transfer>)
        requires
            idx < 4,
        ensures
            !triggered(nds9, ctrl, reason, vcount) ==> r is None && *final(self) == *old(self),
            triggered(nds9, ctrl, reason, vcount) ==> {
                let src_mod = step_of(((ctrl / 0x80) % 4) as u16);
                let dst_raw = ((ctrl / 0x20) % 4) as u16;
                let dst_mod = if dst_raw == 3 {
                    2i32
                } else {
                    step_of(dst_raw)
                };
                let word = ctrl_bit(ctrl, 10);
                &&& r == Some(
                    Transfer {
                        idx,
                        count: transfer_count(nds9, idx, count_reg),
                        src_mod: (if word { src_mod * 2 } else { src_mod as int }) as i32,
                        dst_mod: (if word { dst_mod * 2 } else { dst_mod as int }) as i32,
                        word,
                    },
                )
                &&& final(self).src == old(self).src
                &&& dst_raw == 3 ==> final(self).dst@ == old(self).dst@.update(
                    idx as int,
                    dst_reg & dst_mask(nds9, idx),
                )
                &&& dst_raw != 3 ==> final(self).dst == old(self).dst
                &&& final(self).cache == old(self).cache
            },
    {
        let on = (ctrl >> 15) & 1 == 1 && if !nds9 {
            // NDS7
            let t = (ctrl / 0x1000) % 4;
            if t == 0 {
                reason == Reason::CtrlWrite
            } else if t == 1 {
                reason == Reason::VBlank
            } else if t == 2 {
                reason == Reason::CartridgeReady
            } else {
                false
            }
        } else {
            // NDS9
            let t = (ctrl / 0x800) % 8;
            if t == 0 {
                reason == Reason::CtrlWrite
            } else if t == 1 {
                reason == Reason::VBlank
            } else if t == 2 {
                reason == Reason::HBlank && vcount < 160
            } else if t == 3 {
                reason == Reason::HBlank && vcount == 0
            } else if t == 5 {
                reason == Reason::CartridgeReady
            } else {
                false
            }
        };
        if !on {
            return None;
        }

        let count: u32 = if count_reg == 0 && nds9 {
            0x20_0000
        } else if count_reg == 0 && idx == 3 {
            0x1_0000
        } else if count_reg == 0 {
            0x4000
        } else {
            count_reg as u32
        };

        let src_mod = Self::get_step((ctrl / 0x80) % 4);
        let dst_raw = (ctrl / 0x20) % 4;
        let dst_mod: i32 = if dst_raw == 3 {
            // Reload DST + Increment
            let dm: u32 = if nds9 || idx == 3 {
                0xFFF_FFFF
            } else {
                0x7FF_FFFF
            };
            self.dst[idx as usize] = dst_reg & dm;
            2
        } else {
            Self::get_step(dst_raw)
        };

        let word = (ctrl >> 10) & 1 == 1;
        let (sm, dm) = if word {
            (src_mod * 2, dst_mod * 2)
        } else {
            (src_mod, dst_mod)
        };
        Some(Transfer { idx, count, src_mod: sm, dst_mod: dm, word })
    }

    /// Control value and interrupt after a transfer: the channel turns off
    /// unless it repeats, and requests its interrupt (IF bit) if enabled.
    pub fn finish_dma(idx: u16, ctrl: u16) -> (r: (Option<u16>, Option<u16>))
        requires
            idx < 4,
        ensures
            r.0 == if !ctrl_bit(ctrl, 9) || (ctrl / 0x1000) % 4 == 0 {
                Some(ctrl & 0x7FFF)
            } else {
                None::<u16>
            },
            r.1 == if ctrl_bit(ctrl, 14) { Some((8 + idx) as u16) } else { None::<u16> },
    {
        let new_ctrl = if !((ctrl >> 9) & 1 == 1) || (ctrl / 0x1000) % 4 == 0 {
            // Disable if reload is not enabled or it's an immediate transfer
            Some(ctrl & 0x7FFF)
        } else {
            None
        };
        let irq = if (ctrl >> 14) & 1 == 1 {
            // Fire interrupt if configured
            Some(8 + idx)
        } else {
            None
        };
        (new_ctrl, irq)
    }

    /// Begin a transfer on channel `idx`: decide where its units come
    /// from, and for transfers from memory align both addresses to the
    /// unit size.
    pub fn begin_transfer(&mut self, idx: u16, word: bool) -> (r: TransferSource)
        requires
            idx < 4,
        ensures
            ({
                let i = idx as int;
                let mask: u32 = if word { !3u32 } else { !1u32 };
                if old(self).dst[i] < 0x200_0000 {
                    r == TransferSource::Skip && *final(self) == *old(self)
                } else if old(self).src[i] >= 0x200_0000 {
                    &&& r == TransferSource::Memory
                    &&& final(self).src@ == old(self).src@.update(i, old(self).src[i] & mask)
                    &&& final(self).dst@ == old(self).dst@.update(i, old(self).dst[i] & mask)
                    &&& final(self).cache == old(self).cache
                } else {
                    r == TransferSource::Cache && *final(self) == *old(self)
                }
            }),
    {
        let i = idx as usize;
        if self.dst[i] < 0x200_0000 {
            return TransferSource::Skip;
        }
        if self.src[i] >= 0x200_0000 {
            // First, align SRC/DST
            let mask: u32 = if word {
                !3u32
            } else {
                !1u32
            };
            self.src[i] = self.src[i] & mask;
            self.dst[i] = self.dst[i] & mask;
            TransferSource::Memory
        } else {
            TransferSource::Cache
        }
    }

    /// The addresses of the next unit of a transfer on channel `idx`, and
    /// the channel's addresses stepped past it.
    pub fn next_unit(&mut self, idx: u16, src_mod: i32, dst_mod: i32) -> (r: (u32, u32))
        requires
            idx < 4,
        ensures
            r == (old(self).src[idx as int], old(self).dst[idx as int]),
            final(self).src@ == old(self).src@.update(
                idx as int,
                wrap_add(old(self).src[idx as int], src_mod),
            ),
            final(self).dst@ == old(self).dst@.update(
                idx as int,
                wrap_add(old(self).dst[idx as int], dst_mod),
            ),
            final(self).cache == old(self).cache,
    {
        let i = idx as usize;
        let r = (self.src[i], self.dst[i]);
        self.src[i] = self.src[i].wrapping_add_signed(src_mod);
        self.dst[i] = self.dst[i].wrapping_add_signed(dst_mod);
        r
    }

    /// The unit that a transfer from the cache writes at `dst`: the whole
    /// cache for words, else the half that the address selects.
    pub fn cache_unit(&self, dst: u32, word: bool) -> (r: u32)
        ensures
            r == if word {
                self.cache
            } else if (dst >> 1u32) & 1 == 1 {
                self.cache >> 16u32
            } else {
                self.cache & 0xFFFF
            },
    {
        if word {
            self.cache
        } else if (dst >> 1) & 1 == 1 {
            self.cache >> 16
        } else {
            self.cache & 0xFFFF
        }
    }

    /// Put the last unit read by a transfer from memory into the cache; a
    /// halfword fills both halves.
    pub fn fill_cache(&mut self, value: u32, word: bool)
        requires
            !word ==> value <= 0xFFFF,
        ensures
            final(self).cache == if word { value } else { (value * 0x1_0001) as u32 },
            final(self).src == old(self).src && final(self).dst == old(self).dst,
    {
        if word {
            self.cache = value;
        } else {
            self.cache = value * 0x1_0001;
        }
    }
}

} // verus!
