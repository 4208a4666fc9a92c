//! Scheduler events of the GGA.
use vstd::prelude::*;
use crate::scheduler::Kind;

verus! {

/// All scheduler events on the GGA.
#[derive(Copy, Clone, PartialEq, Eq, Structural, Debug)]
pub enum AdvEvent {
    PauseEmulation,
}

impl Kind for AdvEvent {
    fn is_kind(&self, other: &Self) -> (r: bool) {
        *self == *other
    }
}

impl Default for AdvEvent {
    fn default() -> (r: Self)
        ensures
            r == AdvEvent::PauseEmulation,
    {
        AdvEvent::PauseEmulation
    }
}

} // verus!
