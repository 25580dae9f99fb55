# chip8

A CHIP-8 virtual machine whose instruction set, timers, sprite drawing and
keyboard handling are verified with Verus.

- `src/model.rs`: the machine state as sequences and integers, and what one
  cycle does to it (`cycle`), with the condition under which a cycle runs to
  its end (`cycle_ok`).
- `src/chip8.rs`: the machine (`Chip8`), whose operations are proved to follow
  the model; the random byte of `CXNN` comes from the `rand` crate.
- `src/key_check.rs`: how keyboard events become the key the machine sees.
- `src/laws.rs`: properties that span instructions and cycles.
- `app/`: the program: it reads the ROM, opens an SDL2 window, feeds keyboard
  events to the machine and paints what each cycle asks for.

Usage: `chip8 [ROM_FILENAME] [CLOCK_SPEED]`, with ROMs in `./src/roms/`.
