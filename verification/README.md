# gameboy-emu

A Game Boy emulator core whose behaviour is specified and proved with Verus.

- `src/registers.rs`: the register file, register pairs and flags.
- `src/header.rs`: the cartridge header fields that select the bank controller.
- `src/mbc.rs`, `src/mbc/`: cartridges without a controller (`nmbc`) and with MBC1 (`mbc1`).
- `src/memory.rs`: the memory map seen by the processor and by the PPU.
- `src/ppu.rs`, `src/ppu/background_fifo.rs`: the picture processing unit and its pixel FIFO.
- `src/cpu.rs`, `src/cpu/alu.rs`, `src/cpu/isa.rs`: the processor, its arithmetic and the
  instruction set as specification functions.
- `src/lib.rs`: the `Emulator` facade and its `DebugView`.
- `src/messages.rs`: the formatted error messages.
- `app/`: the egui front end (ROM loading, stepping, register and opcode display).
