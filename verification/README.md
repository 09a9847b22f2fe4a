# mini-vmm

A small KVM virtual machine monitor whose logic is verified with Verus.

- `src/` is the verified library:
  - `memory.rs`: guest RAM, a region of guest physical addresses, with bounds-checked writes;
  - `linux_loader.rs`: parsing of the Linux x86 boot protocol header of a bzImage and its layout in guest memory;
  - `devices.rs`: the `PortDevice` trait, the debug port (0xe9), a COM1 UART, and the dispatch of a port I/O exit to the first device that claims the port;
  - `vmm.rs`: the guest memory layout (8192 bytes at 0x1000), the vCPU's initial and real-mode registers, the checks on what KVM reports during setup, and the decision taken on each vCPU exit.
- `app/` is the program around it: `/dev/kvm`, the ioctls, the `mmap`ed guest RAM into which the library's guest memory is copied, the run loop and console output.
- `tests/` exercise the library.
