# rpi_os

A small operating system for the Raspberry Pi 3/4 (AArch64), with its serial bootloader and the
host-side server that feeds it, written so that its logic is verified with Verus.

## Layout

- `src/` is the verified library: what the kernel, the bootloader and the server decide or
  compute, each function with a contract that Verus proves. Locks are modelled as one thread
  sees them, and the kernel's device-tree parsing is not part of it.
  - memory: `memory` (physical page allocator with reference counts), `paging` and `kernel_vm`
    (translation descriptors and tables), `elf` (loading executables), `bump_allocator`, `boot`
    (the boot translation table, system register values, stacks and heap of the Pi 4 kernel),
    `rpi3` (the same for the Pi 3, with a page-granular boot table).
  - executions: `execution`, `execution_map`, `svc` (system calls), `syscalls` (their user
    side), `exception` (syndromes, page faults, interrupts), `machine`.
  - kernel threads and time: `thread`, `timer`, `sync`, `cell`.
  - devices: `uart`, `gpio`, `dma`, `mailbox`, `emmc`, and the bit-field helpers of `bitfield`.
  - the bootloader protocol: `boot_protocol`; enum representations: `as_bits`.
- `tests/` runs the library on concrete values.
- `app/` is the part that cannot be verified: the host server's command line, serial port, files
  and console, and the board's memory-mapped register accesses and system registers, each of
  which hands plain values to the library and carries out what it decides.
