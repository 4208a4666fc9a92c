//! The NDS system: its two CPUs' DMA channels and its scheduler events.
pub mod dma;
pub mod graphics;
pub mod scheduling;
