# crusty

A Game Boy Advance emulator core: the ARM7TDMI processor (ARM and Thumb instruction
sets), the memory map, the drawing unit, a debugger command language and a runner for
recorded instruction tests.

- `src/` is the library, verified: every function carries a contract over a mathematical
  model of the machine (`Machine`, `CpuView`, the memory regions as sequences of words,
  `PpuView`), and the laws of the library are proof functions next to the code they are
  about.
- `tests/` exercises the library on concrete values.
- `app/` is the program around it: command line, reading ROM images, the debugger prompt
  and the JSON test runner.
