//! Scheduler events of the NDS.
use vstd::prelude::*;
use crate::scheduler::Kind;

verus! {

/// All scheduler events on the NDS.
#[derive(Copy, Clone, PartialEq, Eq, Structural, Debug)]
pub enum NdsEvent {
    PauseEmulation,
}

impl Kind for NdsEvent {
    fn is_kind(&self, other: &Self) -> (r: bool) {
        *self == *other
    }
}

impl Default for NdsEvent {
    fn default() -> (r: Self)
        ensures
            r == NdsEvent::PauseEmulation,
    {
        Self::PauseEmulation
    }
}

} // verus!
