# otoriscv

A RISC-V (RV32IMAFD and RV64) system emulator whose core is verified with Verus.

- `src/` is the verified library: the harts (decode, execute, traps, CSRs,
  Sv32/Sv39 MMUs with their TLBs, the instruction cache), the memory bus and
  the devices (UART, CLINT, PLIC, VirtIO-MMIO and the 9P file server), the
  device-tree builder, the boot layout, the run loops, the block JIT's
  discovery and control-flow analysis, the command-line rules, and the
  decompression front ends.
- `tests/` exercises the library on concrete programs and devices.
- `app/` is the program around it: argument and file handling, the host
  terminal, snapshots and the IEEE-754 arithmetic the
  harts call through `FloatArith`.
