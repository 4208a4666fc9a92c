//! The NDS's two graphics engines.
use vstd::prelude::*;
use crate::common::Colour;
use crate::gga::graphics::{new_ppu, GgaPpu};

verus! {

/// The NDS's two graphics engines, each a GGA-like PPU, and the last
/// frame they produced.
pub struct NdsEngines {
    pub ppus: [GgaPpu; 2],
    pub last_frame: Option<Vec<Colour>>,
}

impl Default for NdsEngines {
    fn default() -> (e: Self)
        ensures
            e.ppus[0].wf() && e.ppus[1].wf(),
            e.last_frame is None,
    {
        Self { ppus: [new_ppu(), new_ppu()], last_frame: None }
    }
}

} // verus!
