//! The GGA (GBA-like) system: ARM7TDMI CPU state, its ALU and
//! peripherals whose logic is independent of the rest of the system.
pub mod alu;
pub mod audio;
pub mod caching;
pub mod cartridge;
pub mod dma;
pub mod graphics;
pub mod inst_arm;
pub mod inst_generic;
pub mod inst_thumb;
pub mod memory;
pub mod objects;
pub mod registers;
pub mod render;
pub mod scheduling;
pub mod step;
pub mod tile;
pub mod transfer;
pub mod transfer_arm;
pub mod timer;
