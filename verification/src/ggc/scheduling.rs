//! Scheduler events of the GG.
use vstd::prelude::*;
use crate::scheduler::Kind;

verus! {

/// All scheduler events on the GG.
#[derive(Copy, Clone, PartialEq, Eq, Structural, Debug)]
pub enum GGEvent {
    /// Pause the emulation. Used by `advance_delta` to advance by a certain
    /// amount.
    PauseEmulation,
    /// An event handled by the PPU.
    PpuEvent(PpuEvent),
    /// An event handled by the APU.
    ApuEvent(ApuEvent),
    /// A DMA transfer completion.
    DMAFinish,
    /// Advance HDMA transfer.
    HdmaTransferStep,
    /// A GDMA transfer.
    GdmaTransfer,
    /// A timer overflow.
    TimerOverflow,
    /// TIMA gets reloaded from TMA, one M-cycle after an overflow.
    TmaReload,
}

impl Default for GGEvent {
    fn default() -> (r: Self)
        ensures
            r == GGEvent::PauseEmulation,
    {
        GGEvent::PauseEmulation
    }
}

impl Kind for GGEvent {
    fn is_kind(&self, other: &Self) -> (r: bool) {
        *self == *other
    }
}

/// Events the PPU generates.
#[derive(Copy, Clone, PartialEq, Eq, Structural, Debug)]
pub enum PpuEvent {
    OamScanEnd,
    UploadEnd,
    HblankEnd,
    VblankEnd,
}

impl PpuEvent {
    /// Number of the PPU mode that this event ends.
    pub fn ordinal(self) -> (r: u8)
        ensures
            r == match self {
                PpuEvent::HblankEnd => 0u8,
                PpuEvent::VblankEnd => 1u8,
                PpuEvent::OamScanEnd => 2u8,
                PpuEvent::UploadEnd => 3u8,
            },
    {
        match self {
            PpuEvent::HblankEnd => 0,
            PpuEvent::VblankEnd => 1,
            PpuEvent::OamScanEnd => 2,
            PpuEvent::UploadEnd => 3,
        }
    }
}

/// Events the APU generates.
#[derive(Copy, Clone, PartialEq, Eq, Structural, Debug)]
pub enum ApuEvent {
    /// Push a sample to the output.
    PushSample,
}

} // verus!
