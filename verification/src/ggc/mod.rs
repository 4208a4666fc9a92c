//! The GG (DMG/CGB) system: CPU state and ALU, timer, audio units,
//! colour palettes and joypad.
pub mod alu;
pub mod cgb;
pub mod cgb_render;
pub mod cpu;
pub mod dma;
pub mod envelope;
pub mod joypad;
pub mod scheduling;
pub mod timer;
pub mod wave_channel;
pub use crate::common::CgbMode;
