//! Structures shared by all systems.
use vstd::prelude::*;

verus! {

/// Audio sample rate of all emulated systems.
pub const SAMPLE_RATE: u32 = 44100;

/// Colour type used by the system's PPUs for image data: RGBA.
pub type Colour = [u8; 4];

/// How to handle CGB mode depending on cart compatibility.
#[derive(Debug, Clone, Copy, PartialEq, Eq, Structural)]
pub enum CgbMode {
    /// Always run in CGB mode, even when the cart does not support it.
    /// If it does not, it is run in DMG compatibility mode, just like on a
    /// real CGB.
    Always,
    /// If the cart has CGB support, run it as CGB; if not, don't.
    Prefer,
    /// Never run the cart in CGB mode unless it requires it.
    Never,
}

/// Buttons on a system. For GGC, L/R are unused.
#[derive(Debug, Copy, Clone, PartialEq, Eq, Structural, Hash)]
pub enum Button {
    A,
    B,
    Select,
    Start,
    Right,
    Left,
    Up,
    Down,
    R,
    L,
}

/// Position of a button in the joypad's key list.
pub open spec fn button_index(b: Button) -> int {
    match b {
        Button::A => 0,
        Button::B => 1,
        Button::Select => 2,
        Button::Start => 3,
        Button::Right => 4,
        Button::Left => 5,
        Button::Up => 6,
        Button::Down => 7,
        Button::R => 8,
        Button::L => 9,
    }
}

impl Button {
    /// Position of the button in the joypad's key list.
    pub fn index(self) -> (r: usize)
        ensures
            r == button_index(self),
    {
        match self {
            Button::A => 0,
            Button::B => 1,
            Button::Select => 2,
            Button::Start => 3,
            Button::Right => 4,
            Button::Left => 5,
            Button::Up => 6,
            Button::Down => 7,
            Button::R => 8,
            Button::L => 9,
        }
    }

    /// All buttons, in order.
    pub fn buttons() -> (r: [Self; 10])
        ensures
            forall|i: int| 0 <= i < 10 ==> button_index(#[trigger] r[i]) == i,
    {
        [
            Self::A,
            Self::B,
            Self::Select,
            Self::Start,
            Self::Right,
            Self::Left,
            Self::Up,
            Self::Down,
            Self::R,
            Self::L,
        ]
    }
}

/// Screen size of the GG, in pixels.
pub const GG_SCREEN: [usize; 2] = [160, 144];

} // verus!
