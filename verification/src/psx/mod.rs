//! The PSX system: CPU, instruction fields and scheduler events.
pub mod cpu;
pub mod gpu;
pub mod inst;
pub mod scheduling;
