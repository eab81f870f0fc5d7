# kvm_rust

A minimal KVM virtual machine monitor. It boots an x86-64 Linux kernel
through its PVH entry point (or an AArch64 `Image` with a device tree), or
loads a raw binary, and runs one virtual CPU with a serial console.

Layout:

- `src/` — the verified library:
  - `bytes.rs`: little-endian field codecs and NUL-terminated strings;
  - `regs.rs`: AArch64 core-register names and their KVM ids;
  - `uart.rs`: the emulated PL011 UART and the console escape handling;
  - `mmio.rs`, `exits.rs`: MMIO accesses and the decisions taken on VM exits;
  - `guest_mem.rs`: bounds checks for copies into guest memory;
  - `pvh.rs`: ELF note and program-header handling and the PVH boot layout;
  - `arm64.rs`: the AArch64 image header and boot layout.
- `app/` — the program: KVM ioctls, memory mapping, file I/O, the run loop
  and the console thread, driven by the library's decisions.
- `tests/` — tests of the library.
