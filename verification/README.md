# chip8_emu

A CHIP-8 interpreter whose core is verified with Verus.

- `src/` is the library: the processor (`cpu_opcodes`, and its earlier form
  `misc_cpu`), memory, display and timers (`io_manager`), the XO-CHIP
  extensions (`xo_chip_extended`), the keypad decisions (`inputs`), loading a
  program and the fetch/decode/execute cycle (`cpu_main`), the instruction
  fields (`opcode`) and properties that span instructions (`properties`).
  Every instruction's contract is stated over an abstract model of the
  machine (`CpuState`, `IoState`).
- `app/` is the program around it: the SDL window, keyboard and sound, reading
  the ROM file, and the main loop, which performs what each cycle asks for.
- `tests/` runs the library on concrete programs and states.
