# gb_rust

A Game Boy (DMG-01) emulator core written in Verus. Every executable function of the
library carries a contract over a plain-value model of the machine, and Verus proves it.

## Layout

- `src/cpu.rs`, `src/cpu/`: the SM83 CPU. `CpuState` and `Machine` model the CPU and the
  whole machine; `execute_spec` gives the meaning of every opcode (CB-prefixed ones in
  `cb_spec`), and `Cpu::step` is proved to follow `step_spec`. Registers, the ALU (with
  DAA) and cycle helpers live in the submodules.
- `src/membus/`: the memory map (`BusState::read_spec` / `write_spec`, OAM DMA) and the
  cartridge loaded from a ROM image, with header checks and external RAM.
- `src/ppu.rs`: video memory, LCD registers, mode timing and scanline rendering
  (background, window, up to ten sprites per line), specified pixel by pixel.
- `src/io.rs`, `src/timer.rs`, `src/joypad.rs`, `src/interrupts.rs`: I/O registers,
  DIV/TIMA timer, joypad lines, interrupt bits and priorities.
- `src/emulator.rs`: the emulator front object (`tick`, `try_tick`, input, serial output).
- `src/bus.rs`, `src/cartridge.rs`, `src/register.rs`: an older flat memory bus, a
  cartridge with public fields and a register file with one byte per flag, kept with
  their own contracts.
- `app/main.rs`: the SDL2 window, ROM file reading and the main loop.
- `tests/`: tests on concrete programs and values.

Laws that relate several operations (read after write, push then pop, what a tick keeps)
are public proof functions next to the code they speak of.
