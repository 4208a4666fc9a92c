# gamegirl

Verified core logic of the GameGirl emulators: the Game Boy (Color), the
GGA (a Game Boy Advance) and parts of the PSX and NDS cores. The library is
written in Verus. Verus proves the contracts of the functions in `src/`,
except a few small trusted wrappers around outside calls (`arrayvec`'s
`ArrayVec` for the DMA queue, and `String::push`), whose contracts are
stated from those crates' sources and documentation.

## Layout

- `src/scheduler.rs`: the event scheduler shared by all cores (events kept
  sorted, the timer rebased before it overflows).
- `src/ggc/`: Game Boy (Color) parts: CPU ALU, timer, DMA, CGB palettes,
  envelope and wave channel, cartridge.
- `src/gga/`: GGA parts: the ARM7TDMI's registers, ALU, ARM and THUMB
  decoding, execution, disassembly and loads/stores (`transfer`,
  `transfer_arm`, on a bus given as a read function; writes are handed
  back), interrupts and exceptions, DMA, timers, wait states, the
  instruction cache, audio FIFOs and the PPU (bitmap, text and affine
  backgrounds, objects, windows, line composition).
- `src/psx/`, `src/nds/`: the parts of those cores that stand on their own.
- `src/text.rs`, `src/bits.rs`: number formatting and bit facts used across
  the crate.
- `tests/`: tests run against the compiled library.
- `app/`: what cannot be verified: save states (bincode and zstd, with
  savable copies of the cartridge's types), the floating-point audio mix
  and the render thread.
