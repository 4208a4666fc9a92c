//! Verified core logic of the GameGirl emulators (DMG/CGB, GGA and PSX).
use vstd::prelude::*;

pub mod bits;
pub mod common;
pub mod debugger;
pub mod gga;
pub mod ggc;
pub mod nds;
pub mod psx;
pub mod scheduler;
pub mod text;

verus! {

} // verus!
