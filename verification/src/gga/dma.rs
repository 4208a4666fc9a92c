//! The GGA's 4 DMA channels: when a channel starts, how it is queued
//! behind a running transfer of higher priority, what a transfer looks like
//! and what happens once it is done.
//!
//! The system performs the bus accesses of a transfer; it asks the
//! channels for the addresses to use.
use vstd::prelude::*;
use arrayvec::ArrayVec;
use crate::bits::wrap_add;

verus! {

/// Reason for why a DMA transfer attempt was initiated.
#[derive(Debug, Copy, Clone, PartialEq, Eq, Structural)]
pub enum Reason {
    /// The control register was written.
    CtrlWrite,
    /// The PPU entered HBlank.
    HBlank,
    /// The PPU entered VBlank.
    VBlank,
    /// A FIFO sound channel is requesting new samples.
    Fifo,
}

#[verifier::external_type_specification]
#[verifier::external_body]
#[verifier::reject_recursive_types(T)]
pub struct ExArrayVec<T, const CAP: usize>(ArrayVec<T, CAP>);

/// The channels waiting in a queue, first queued first.
pub uninterp spec fn queue_items(q: ArrayVec<(u16, Reason), 3>) -> Seq<(u16, Reason)>;

/// `ArrayVec::new`: an empty queue.
#[verifier::external_body]
fn queue_new() -> (q: ArrayVec<(u16, Reason), 3>)
    ensures
        queue_items(q) == Seq::<(u16, Reason)>::empty(),
{
    ArrayVec::new()
}

/// `ArrayVec::len`: the number of items, which never exceeds the capacity.
#[verifier::external_body]
fn queue_len(q: &ArrayVec<(u16, Reason), 3>) -> (n: usize)
    ensures
        n == queue_items(*q).len(),
        n <= 3,
{
    q.len()
}

/// `ArrayVec::push`: appends the item; it panics on a full queue, which
/// `requires` rules out.
#[verifier::external_body]
fn queue_push(q: &mut ArrayVec<(u16, Reason), 3>, item: (u16, Reason))
    requires
        queue_items(*old(q)).len() < 3,
    ensures
        queue_items(*final(q)) == queue_items(*old(q)).push(item),
{
    q.push(item)
}

/// `ArrayVec::pop`: removes and returns the last item, if there is one.
#[verifier::external_body]
fn queue_pop(q: &mut ArrayVec<(u16, Reason), 3>) -> (r: Option<(u16, Reason)>)
    ensures
        queue_items(*old(q)).len() == 0 ==> r is None && queue_items(*final(q)) == queue_items(
            *old(q),
        ),
        queue_items(*old(q)).len() > 0 ==> r == Some(queue_items(*old(q)).last()) && queue_items(
            *final(q),
        ) == queue_items(*old(q)).drop_last(),
{
    q.pop()
}

/// Bits of the source address a channel keeps.
pub open spec fn src_mask(idx: u16) -> u32 {
    if idx == 0 {
        0x7FF_FFFF
    } else {
        0xFFF_FFFF
    }
}

/// Bits of the destination address a channel keeps.
pub open spec fn dst_mask(idx: u16) -> u32 {
    if idx == 3 {
        0xFFF_FFFF
    } else {
        0x7FF_FFFF
    }
}

/// If bit `b` of a control value is set.
pub open spec fn ctrl_bit(ctrl: u16, b: u16) -> bool {
    (ctrl >> b) & 1 == 1
}

/// Start timing of a channel (control bits 12-13).
pub open spec fn timing(ctrl: u16) -> u16 {
    ((ctrl / 0x1000) % 4) as u16
}

/// Address step of a channel's address control (2 bits).
pub open spec fn step_of(bits: u16) -> i32 {
    if bits == 0 {
        2i32
    } else if bits == 1 {
        -2i32
    } else {
        0i32
    }
}

/// If channel 3 performs a video capture transfer at this HBlank.
pub open spec fn is_video_capture(idx: u16, ctrl: u16, reason: Reason, vcount: u16) -> bool {
    &&& idx == 3
    &&& 2 <= vcount < 162
    &&& reason == Reason::HBlank
    &&& timing(ctrl) == 3
}

/// If a channel starts for this reason.
pub open spec fn triggered(idx: u16, ctrl: u16, reason: Reason, vcount: u16) -> bool {
    &&& ctrl_bit(ctrl, 15)
    &&& {
        let t = timing(ctrl);
        if t == 0 {
            reason == Reason::CtrlWrite
        } else if t == 1 {
            reason == Reason::VBlank
        } else if t == 2 {
            reason == Reason::HBlank && vcount < 160
        } else {
            reason == Reason::Fifo || is_video_capture(idx, ctrl, reason, vcount)
        }
    }
}

/// Channel state and result after `Dmas::step_dma`.
pub open spec fn step_dma_post(
    before: Dmas,
    after: Dmas,
    step: DmaStep,
    idx: u16,
    ctrl: u16,
    reason: Reason,
    vcount: u16,
    count_reg: u16,
    dst_reg: u32,
) -> bool {
    &&& !triggered(idx, ctrl, reason, vcount) ==> step == DmaStep::Idle && after == before
    &&& triggered(idx, ctrl, reason, vcount) && before.running <= idx ==> {
        &&& step == DmaStep::Queued
        &&& queue_items(after.queued) == queue_items(before.queued).push(
            (idx, reason),
        )
        &&& after.src == before.src && after.dst == before.dst
        &&& after.running == before.running
        &&& after.cache == before.cache
        &&& after.pc_at_last_end == before.pc_at_last_end
    }
    &&& triggered(idx, ctrl, reason, vcount) && before.running > idx ==> {
        let fifo = reason == Reason::Fifo;
        let src = before.src[idx as int];
        let src_mod = if 0x800_0000 <= src <= 0xDFF_FFFF {
            2i32
        } else {
            step_of(((ctrl / 0x80) % 4) as u16)
        };
        let dst_raw = ((ctrl / 0x20) % 4) as u16;
        let dst_mod = if fifo {
            0i32
        } else if dst_raw == 3 {
            2i32
        } else {
            step_of(dst_raw)
        };
        let word = fifo || ctrl_bit(ctrl, 10);
        &&& step == DmaStep::Run(
            Transfer {
                idx,
                count: transfer_count(idx, count_reg, fifo),
                src_mod: (if word { src_mod * 2 } else { src_mod as int }) as i32,
                dst_mod: (if word { dst_mod * 2 } else { dst_mod as int }) as i32,
                word,
                eeprom: !word && idx == 3,
                video_capture: is_video_capture(idx, ctrl, reason, vcount),
                prev_running: before.running,
            },
        )
        &&& after.running == idx
        &&& after.src == before.src
        &&& !fifo && dst_raw == 3 ==> after.dst@ == before.dst@.update(
            idx as int,
            dst_reg & dst_mask(idx),
        )
        &&& !(!fifo && dst_raw == 3) ==> after.dst == before.dst
        &&& after.queued == before.queued
        &&& after.cache == before.cache
        &&& after.pc_at_last_end == before.pc_at_last_end
    }
}

/// Number of units a transfer moves.
pub open spec fn transfer_count(idx: u16, count_reg: u16, fifo: bool) -> u32 {
    if fifo {
        4
    } else if count_reg == 0 && idx == 3 {
        0x1_0000
    } else if count_reg == 0 {
        0x4000
    } else {
        count_reg as u32
    }
}

/// A transfer to perform.
#[derive(Debug, Copy, Clone, PartialEq, Eq, Structural)]
pub struct Transfer {
    /// The channel.
    pub idx: u16,
    /// Units to move.
    pub count: u32,
    /// Step of the source address after each unit, in bytes.
    pub src_mod: i32,
    /// Step of the destination address after each unit, in bytes.
    pub dst_mod: i32,
    /// Units are words (else halfwords).
    pub word: bool,
    /// Channel 3 moving halfwords: an EEPROM on the cart is to be told.
    pub eeprom: bool,
    /// It is a video capture transfer.
    pub video_capture: bool,
    /// Channel that was running before, to resume afterwards.
    pub prev_running: u16,
}

/// What an attempt to start a channel did.
#[derive(Debug, Copy, Clone, PartialEq, Eq, Structural)]
pub enum DmaStep {
    /// The channel is not triggered by this reason.
    Idle,
    /// A channel of the same or higher priority runs: queued.
    Queued,
    /// The transfer is to be performed now.
    Run(Transfer),
}

/// What is left to do after a transfer.
#[derive(Debug, Copy, Clone)]
pub struct DmaEnd {
    /// New value of the control register, if the channel turned off.
    pub ctrl: Option<u16>,
    /// Interrupt to request (IF bit), if the channel asks for one.
    pub irq: Option<u16>,
    /// Queued channel to start next.
    pub next: Option<(u16, Reason)>,
}

/// Where the units of a transfer come from.
#[derive(Debug, Copy, Clone, PartialEq, Eq, Structural)]
pub enum TransferSource {
    /// The destination is in BIOS memory: nothing is transferred.
    Skip,
    /// Units are read from the source address.
    Memory,
    /// The source is in BIOS memory: units come from the DMA cache.
    Cache,
}

/// GGA's 4 DMA channels.
pub struct Dmas {
    /// Internal source registers
    pub src: [u32; 4],
    /// Internal destination registers
    pub dst: [u32; 4],
    /// Internal cache shared between DMAs
    pub cache: u32,
    /// Currently running DMA, or 99
    pub running: u16,
    /// DMAs waiting to run after current.
    pub queued: ArrayVec<(u16, Reason), 3>,
    /// PC when the last DMA finished (for lingering bus behavior)
    pub pc_at_last_end: u32,
}

impl Default for Dmas {
    fn default() -> (d: Self)
        ensures
            d.src@ == seq![0u32, 0, 0, 0],
            d.dst@ == seq![0u32, 0, 0, 0],
            d.cache == 0 && d.running == 0 && d.pc_at_last_end == 0,
            queue_items(d.queued) == Seq::<(u16, Reason)>::empty(),
    {
        let d = Dmas {
            src: [0; 4],
            dst: [0; 4],
            cache: 0,
            running: 0,
            queued: queue_new(),
            pc_at_last_end: 0,
        };
        proof {
            assert(d.src@ =~= seq![0u32, 0, 0, 0]);
            assert(d.dst@ =~= seq![0u32, 0, 0, 0]);
        }
        d
    }
}

impl Dmas {
    /// Get the base address for a DMA (First register: SRC low)
    pub fn base_addr(idx: u16) -> (r: u32)
        ensures
            r == 0xB0 + idx * 0xC,
    {
        0xB0 + (idx as u32 * 0xC)
    }

    /// Get the step with which to change SRC/DST registers after every write.
    /// Multiplied by 2 for word-sized DMAs.
    /// Inc+Reload handled separately.
    pub fn get_step(bits: u16) -> (r: i32)
        ensures
            r == step_of(bits),
    {
        match bits {
            0 => 2,
            1 => -2,
            _ => 0,
        }
    }

    /// If bit `b` of a control value is set.
    fn bit(ctrl: u16, b: u16) -> (r: bool)
        requires
            b < 16,
        ensures
            r == ctrl_bit(ctrl, b),
    {
        (ctrl >> b) & 1 == 1
    }

    /// Update a given DMA after it's control register was written: a
    /// channel that turns on reloads its internal addresses. Returns the
    /// value to store in the control register; the system then steps the
    /// channel with the written value, for `Reason::CtrlWrite`.
    pub fn ctrl_write(&mut self, idx: u16, old_ctrl: u16, new_ctrl: u16, src_reg: u32, dst_reg: u32) -> (stored: u16)
        requires
            idx < 4,
        ensures
            stored == new_ctrl & if idx == 3 { 0xFFE0u16 } else { 0xF7E0u16 },
            !ctrl_bit(old_ctrl, 15) && ctrl_bit(new_ctrl, 15) ==> {
                &&& final(self).src@ == old(self).src@.update(idx as int, src_reg & src_mask(idx))
                &&& final(self).dst@ == old(self).dst@.update(idx as int, dst_reg & dst_mask(idx))
            },
            !(!ctrl_bit(old_ctrl, 15) && ctrl_bit(new_ctrl, 15)) ==> final(self).src == old(
                self,
            ).src && final(self).dst == old(self).dst,
            final(self).cache == old(self).cache && final(self).running == old(self).running,
            final(self).queued == old(self).queued,
            final(self).pc_at_last_end == old(self).pc_at_last_end,
    {
        if !Self::bit(old_ctrl, 15) && Self::bit(new_ctrl, 15) {
            // Reload SRC/DST
            let sm: u32 = if idx == 0 {
                0x7FF_FFFF
            } else {
                0xFFF_FFFF
            };
            let dm: u32 = if idx == 3 {
                0xFFF_FFFF
            } else {
                0x7FF_FFFF
            };
            self.src[idx as usize] = src_reg & sm;
            self.dst[idx as usize] = dst_reg & dm;
        }
        new_ctrl & if idx == 3 {
            0xFFE0
        } else {
            0xF7E0
        }
    }

    /// If the channel is triggered by `reason` (see `triggered`).
    fn is_triggered(idx: u16, ctrl: u16, reason: Reason, vcount: u16) -> (b: bool)
        ensures
            b == triggered(idx, ctrl, reason, vcount),
    {
        let t = (ctrl / 0x1000) % 4;
        let vid_capture = idx == 3 && 2 <= vcount && vcount < 162 && reason == Reason::HBlank && t
            == 3;
        Self::bit(ctrl, 15) && if t == 0 {
            reason == Reason::CtrlWrite
        } else if t == 1 {
            reason == Reason::VBlank
        } else if t == 2 {
            reason == Reason::HBlank && vcount < 160
        } else {
            reason == Reason::Fifo || vid_capture
        }
    }

    /// Step a DMA as `step_dma` does, where the queue has room for a
    /// channel that has to wait; `None`, with nothing changed, where it
    /// would have to wait and the queue is full.
    pub fn try_step_dma(
        &mut self,
        idx: u16,
        ctrl: u16,
        reason: Reason,
        vcount: u16,
        count_reg: u16,
        dst_reg: u32,
    ) -> (r: Option<DmaStep>)
        requires
            idx < 4,
        ensures
            r is None <==> (triggered(idx, ctrl, reason, vcount) && old(self).running <= idx && queue_items(
                old(self).queued,
            ).len() >= 3),
            r is None ==> *final(self) == *old(self),
            r matches Some(step) ==> step_dma_post(*old(self), *final(self), step, idx, ctrl, reason, vcount, count_reg, dst_reg),
    {
        if self.running <= idx && queue_len(&self.queued) >= 3 && Self::is_triggered(idx, ctrl, reason, vcount) {
            return None;
        }
        Some(self.step_dma(idx, ctrl, reason, vcount, count_reg, dst_reg))
    }

    /// Step a DMA: start the transfer if the channel is triggered and no
    /// channel of the same or higher priority runs, else queue it.
    /// `count_reg` and `dst_reg` are the channel's count and destination
    /// registers.
    pub fn step_dma(
        &mut self,
        idx: u16,
        ctrl: u16,
        reason: Reason,
        vcount: u16,
        count_reg: u16,
        dst_reg: u32,
    ) -> (r: DmaStep)
        requires
            idx < 4,
            triggered(idx, ctrl, reason, vcount) && old(self).running <= idx ==> queue_items(
                old(self).queued,
            ).len() < 3,
        ensures
            step_dma_post(*old(self), *final(self), r, idx, ctrl, reason, vcount, count_reg, dst_reg),
    {
        let fifo = reason == Reason::Fifo;
        let t = (ctrl / 0x1000) % 4;
        let vid_capture = idx == 3 && 2 <= vcount && vcount < 162 && reason == Reason::HBlank && t
            == 3;
        if !Self::is_triggered(idx, ctrl, reason, vcount) {
            return DmaStep::Idle;
        }
        if self.running <= idx {
            queue_push(&mut self.queued, (idx, reason));
            return DmaStep::Queued;
        }

        let prev_dma = self.running;
        self.running = idx;

        let count: u32 = if fifo {
            4
        } else if count_reg == 0 && idx == 3 {
            0x1_0000
        } else if count_reg == 0 {
            0x4000
        } else {
            count_reg as u32
        };

        let src = self.src[idx as usize];
        let src_mod: i32 = if 0x800_0000 <= src && src <= 0xDFF_FFFF {
            2
        } else {
            Self::get_step((ctrl / 0x80) % 4)
        };

        let dst_raw = (ctrl / 0x20) % 4;
        let dst_mod: i32 = if fifo {
            0
        } else if dst_raw == 3 {
            // Reload DST + Increment
            let dm: u32 = if idx == 3 {
                0xFFF_FFFF
            } else {
                0x7FF_FFFF
            };
            self.dst[idx as usize] = dst_reg & dm;
            2
        } else {
            Self::get_step(dst_raw)
        };

        let word = fifo || Self::bit(ctrl, 10);
        let (sm, dm) = if word {
            (src_mod * 2, dst_mod * 2)
        } else {
            (src_mod, dst_mod)
        };
        DmaStep::Run(
            Transfer {
                idx,
                count,
                src_mod: sm,
                dst_mod: dm,
                word,
                eeprom: !word && idx == 3,
                video_capture: vid_capture,
                prev_running: prev_dma,
            },
        )
    }

    /// Finish a transfer: turn the channel off unless it repeats, request
    /// its interrupt if enabled, resume the channel that ran before, and
    /// hand out the last queued channel to start next. `vcount` is VCOUNT
    /// now.
    pub fn finish_dma(&mut self, t: Transfer, ctrl: u16, vcount: u16) -> (e: DmaEnd)
        requires
            t.idx < 4,
        ensures
            e.ctrl == if !ctrl_bit(ctrl, 9) || timing(ctrl) == 0 || (t.video_capture && vcount
                == 161) {
                Some(ctrl & 0x7FFF)
            } else {
                None::<u16>
            },
            e.irq == if ctrl_bit(ctrl, 14) { Some((8 + t.idx) as u16) } else { None::<u16> },
            final(self).running == t.prev_running,
            queue_items(old(self).queued).len() == 0 ==> e.next is None && queue_items(
                final(self).queued,
            ) == queue_items(old(self).queued),
            queue_items(old(self).queued).len() > 0 ==> e.next == Some(
                queue_items(old(self).queued).last(),
            ) && queue_items(final(self).queued) == queue_items(old(self).queued).drop_last(),
            final(self).src == old(self).src && final(self).dst == old(self).dst,
            final(self).cache == old(self).cache,
            final(self).pc_at_last_end == old(self).pc_at_last_end,
    {
        let t_bits = (ctrl / 0x1000) % 4;
        let new_ctrl = if !Self::bit(ctrl, 9) || t_bits == 0 || (t.video_capture && vcount == 161) {
            // Disable if reload is not enabled, it's an immediate transfer, or end of video
            // capture
            Some(ctrl & 0x7FFF)
        } else {
            None
        };
        let irq = if Self::bit(ctrl, 14) {
            // Fire interrupt if configured
            Some(8 + t.idx)
        } else {
            None
        };
        self.running = t.prev_running;
        let next = queue_pop(&mut self.queued);
        DmaEnd { ctrl: new_ctrl, irq, next }
    }

    /// The addresses of the next unit of a transfer on channel `idx`, and
    /// the channel's addresses stepped past it.
    pub fn next_unit(&mut self, idx: u16, src_mod: i32, dst_mod: i32) -> (r: (u32, u32))
        requires
            idx < 4,
        ensures
            r == (old(self).src[idx as int], old(self).dst[idx as int]),
            final(self).src@ == old(self).src@.update(
                idx as int,
                wrap_add(old(self).src[idx as int], src_mod),
            ),
            final(self).dst@ == old(self).dst@.update(
                idx as int,
                wrap_add(old(self).dst[idx as int], dst_mod),
            ),
            final(self).cache == old(self).cache && final(self).running == old(self).running,
            final(self).queued == old(self).queued,
            final(self).pc_at_last_end == old(self).pc_at_last_end,
    {
        let i = idx as usize;
        let r = (self.src[i], self.dst[i]);
        self.src[i] = self.src[i].wrapping_add_signed(src_mod);
        self.dst[i] = self.dst[i].wrapping_add_signed(dst_mod);
        r
    }
}

impl Dmas {
    /// Begin a transfer on channel `idx`: decide where its units come
    /// from, and for transfers from memory align both addresses to the
    /// unit size.
    pub fn begin_transfer(&mut self, idx: u16, word: bool) -> (r: TransferSource)
        requires
            idx < 4,
        ensures
            ({
                let i = idx as int;
                let mask: u32 = if word { !3u32 } else { !1u32 };
                if old(self).dst[i] < 0x200_0000 {
                    r == TransferSource::Skip && *final(self) == *old(self)
                } else if old(self).src[i] >= 0x200_0000 {
                    &&& r == TransferSource::Memory
                    &&& final(self).src@ == old(self).src@.update(i, old(self).src[i] & mask)
                    &&& final(self).dst@ == old(self).dst@.update(i, old(self).dst[i] & mask)
                    &&& final(self).cache == old(self).cache
                    &&& final(self).running == old(self).running
                    &&& final(self).queued == old(self).queued
                    &&& final(self).pc_at_last_end == old(self).pc_at_last_end
                } else {
                    r == TransferSource::Cache && *final(self) == *old(self)
                }
            }),
    {
        let i = idx as usize;
        if self.dst[i] < 0x200_0000 {
            return TransferSource::Skip;
        }
        if self.src[i] >= 0x200_0000 {
            // First, align SRC/DST
            let mask: u32 = if word {
                !3u32
            } else {
                !1u32
            };
            self.src[i] = self.src[i] & mask;
            self.dst[i] = self.dst[i] & mask;
            TransferSource::Memory
        } else {
            TransferSource::Cache
        }
    }

    /// The unit that a transfer from the cache writes at `dst`: the whole
    /// cache for words, else the half that the address selects.
    pub fn cache_unit(&self, dst: u32, word: bool) -> (r: u32)
        ensures
            r == if word {
                self.cache
            } else if (dst >> 1u32) & 1 == 1 {
                self.cache >> 16u32
            } else {
                self.cache & 0xFFFF
            },
    {
        if word {
            self.cache
        } else if (dst >> 1) & 1 == 1 {
            self.cache >> 16
        } else {
            self.cache & 0xFFFF
        }
    }

    /// Put the last unit read by a transfer from memory into the cache; a
    /// halfword fills both halves.
    pub fn fill_cache(&mut self, value: u32, word: bool)
        requires
            !word ==> value <= 0xFFFF,
        ensures
            final(self).cache == if word { value } else { (value * 0x1_0001) as u32 },
            final(self).src == old(self).src && final(self).dst == old(self).dst,
            final(self).running == old(self).running,
            final(self).queued == old(self).queued,
            final(self).pc_at_last_end == old(self).pc_at_last_end,
    {
        if word {
            self.cache = value;
        } else {
            self.cache = value * 0x1_0001;
        }
    }

    /// Record the PC at the end of a transfer (for lingering bus behavior).
    pub fn end_transfer(&mut self, pc: u32)
        ensures
            final(self).pc_at_last_end == pc,
            final(self).src == old(self).src && final(self).dst == old(self).dst,
            final(self).cache == old(self).cache && final(self).running == old(self).running,
            final(self).queued == old(self).queued,
    {
        self.pc_at_last_end = pc;
    }
}

/// An address after `k` steps of `step`, wrapping around.
pub open spec fn stepped(a: u32, step: i32, k: nat) -> u32
    decreases k,
{
    if k == 0 {
        a
    } else {
        wrap_add(stepped(a, step, (k - 1) as nat), step)
    }
}

impl Dmas {
    /// The units of transfer `t` in order, as (source, destination)
    /// addresses: none if the destination is in BIOS memory; else `count`
    /// units from the channel's internal addresses (aligned to the unit
    /// size for a transfer from memory), each moved by the transfer's steps,
    /// which the internal addresses are left at. For each unit the system
    /// reads the source (or, from BIOS memory, takes `cache_unit`), writes
    /// the destination and lets its clock run; after a transfer from memory
    /// it puts the last unit into the cache (`fill_cache`).
    pub fn transfer_units(&mut self, t: Transfer) -> (r: (TransferSource, Vec<(u32, u32)>))
        requires
            t.idx < 4,
        ensures
            ({
                let i = t.idx as int;
                let mask: u32 = if t.word { !3u32 } else { !1u32 };
                let (s0, d0) = if r.0 == TransferSource::Memory {
                    (old(self).src[i] & mask, old(self).dst[i] & mask)
                } else {
                    (old(self).src[i], old(self).dst[i])
                };
                &&& r.0 == if old(self).dst[i] < 0x200_0000 {
                    TransferSource::Skip
                } else if old(self).src[i] >= 0x200_0000 {
                    TransferSource::Memory
                } else {
                    TransferSource::Cache
                }
                &&& r.0 == TransferSource::Skip ==> r.1@.len() == 0 && *final(self) == *old(self)
                &&& r.0 != TransferSource::Skip ==> {
                    &&& r.1@.len() == t.count
                    &&& forall|k: int|
                        0 <= k < t.count ==> #[trigger] r.1@[k] == (
                            stepped(s0, t.src_mod, k as nat),
                            stepped(d0, t.dst_mod, k as nat),
                        )
                    &&& final(self).src@ == old(self).src@.update(i, stepped(s0, t.src_mod, t.count as nat))
                    &&& final(self).dst@ == old(self).dst@.update(i, stepped(d0, t.dst_mod, t.count as nat))
                    &&& final(self).cache == old(self).cache && final(self).running == old(self).running
                    &&& final(self).queued == old(self).queued
                    &&& final(self).pc_at_last_end == old(self).pc_at_last_end
                }
            }),
    {
        let source = self.begin_transfer(t.idx, t.word);
        let mut units: Vec<(u32, u32)> = Vec::new();
        if source == TransferSource::Skip {
            return (source, units);
        }
        let ghost s0 = self.src[t.idx as int];
        let ghost d0 = self.dst[t.idx as int];
        let ghost mid = *self;
        let mut k: u32 = 0;
        while k < t.count
            invariant
                t.idx < 4,
                k <= t.count,
                units@.len() == k,
                forall|j: int|
                    0 <= j < k ==> #[trigger] units@[j] == (
                        stepped(s0, t.src_mod, j as nat),
                        stepped(d0, t.dst_mod, j as nat),
                    ),
                self.src@ == mid.src@.update(t.idx as int, stepped(s0, t.src_mod, k as nat)),
                self.dst@ == mid.dst@.update(t.idx as int, stepped(d0, t.dst_mod, k as nat)),
                self.cache == mid.cache && self.running == mid.running,
                self.queued == mid.queued && self.pc_at_last_end == mid.pc_at_last_end,
            decreases t.count - k,
        {
            let u = self.next_unit(t.idx, t.src_mod, t.dst_mod);
            units.push(u);
            k = k + 1;
            proof {
                assert(self.src@ =~= mid.src@.update(t.idx as int, stepped(s0, t.src_mod, k as nat)));
                assert(self.dst@ =~= mid.dst@.update(t.idx as int, stepped(d0, t.dst_mod, k as nat)));
            }
        }
        proof {
            assert(mid.src@.update(t.idx as int, stepped(s0, t.src_mod, t.count as nat)) =~= old(self).src@.update(t.idx as int, stepped(s0, t.src_mod, t.count as nat)));
            assert(mid.dst@.update(t.idx as int, stepped(d0, t.dst_mod, t.count as nat)) =~= old(self).dst@.update(t.idx as int, stepped(d0, t.dst_mod, t.count as nat)));
        }
        (source, units)
    }
}

/// A channel queued while another transfer runs is the one that finishing
/// that transfer hands out next, and the queue is left as it was before.
pub proof fn lemma_queued_channel_runs_next(queue: Seq<(u16, Reason)>, idx: u16, reason: Reason)
    ensures
        queue.push((idx, reason)).len() > 0,
        queue.push((idx, reason)).last() == (idx, reason),
        queue.push((idx, reason)).drop_last() == queue,
{
    assert(queue.push((idx, reason)).drop_last() =~= queue);
}

} // verus!
