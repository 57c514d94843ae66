# rgba_core

A Game Boy Advance core written in Verus: the ARM7TDMI CPU, the memory bus,
the I/O register block, timers, DMA, the keypad, the event scheduler, a
high-level BIOS for a few software interrupts, and the scanline PPU
(modes 0-5, sprites, windows and colour effects).

Every function in `src/` carries a `requires`/`ensures` contract over a
mathematical view of its type (`CpuView`, `BusView`, `IoView`, `PpuView`,
...) and is proved by Verus; public `lemma_*` proof functions state the
laws that relate several operations (register banking, write-then-read of
RAM and registers, write-one-to-clear interrupt flags, timer reloads,
scheduler ordering, DMA completion, and so on).

The CPU runs against any bus implementing `BusInterface`. Its contracts
state the accesses each instruction makes (addresses, widths, stored
values, in order) through the relations each bus declares for its reads
and writes; the memory laws above are those of the GBA's own `Bus`, whose
relations are exact.

Layout:

- `src/arm7tdmi/` – CPU state, ALU, exception entry, ARM and Thumb execution
- `src/bus.rs`, `src/mem.rs`, `src/cartridge.rs`, `src/io.rs` – memory map
- `src/timer.rs`, `src/dma.rs`, `src/keypad.rs`, `src/interrupt.rs`,
  `src/scheduler.rs`, `src/bios.rs` – the rest of the machine
- `src/ppu/` – background, sprite, window and effect rendering
- `src/lib.rs` – `Gba`, which steps all of the above together
- `src/demo.rs` – the pictures of the front end's demo modes
- `tests/` – executable tests of the library
- `app/` – a desktop front end (window, input, file loading) on `minifb`
