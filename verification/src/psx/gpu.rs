//! The PSX's GPU.
use vstd::prelude::*;
use crate::common::Colour;

verus! {

/// The PSX's GPU.
pub struct Gpu {
    /// The last frame finished by the GPU, ready for display.
    pub last_frame: Option<Vec<Colour>>,
}

impl Default for Gpu {
    fn default() -> (g: Self)
        ensures
            g.last_frame is None,
    {
        Gpu { last_frame: None }
    }
}

} // verus!
