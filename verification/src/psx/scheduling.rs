//! Scheduler events of the PSX.
use vstd::prelude::*;
use crate::scheduler::Kind;

verus! {

/// All scheduler events on the PSX.
#[derive(Copy, Clone, PartialEq, Eq, Structural, Debug)]
pub enum PsxEvent {
    PauseEmulation,
}

impl Kind for PsxEvent {
    fn is_kind(&self, other: &Self) -> (r: bool) {
        *self == *other
    }
}

impl Default for PsxEvent {
    fn default() -> (r: Self)
        ensures
            r == PsxEvent::PauseEmulation,
    {
        Self::PauseEmulation
    }
}

} // verus!
