# streamos

A toy x86 kernel whose logic is a Verus-verified library.

- `src/` — the verified library: the heap allocator, I/O port and range
  bookkeeping, PCI/RTC/serial/PS2/VGA register logic, multiboot and ACPI table
  readers, GDT and IDT encodings, the PIC and APIC command words, Ethernet, ARP,
  IPv4, UDP and TCP (parsing, building and the connection state machine), the HTTP
  responder, the C library (memory and string functions, printf, file cursors),
  ELF loading, USB descriptors and requests, the logger's levels, bit fields and a
  ring buffer. Each public function carries a contract; the `law_*` proof functions
  state properties that span several calls.
- `app/` — the kernel around it: port and memory-mapped I/O, interrupts, the async
  executor and its primitives, the drivers' wait loops, the TCP service tasks, the
  game (floating point) and the C entry points.
- `tests/` — tests on concrete values, run against the compiled library.

Outside crates: `hashbrown` (the module level table of the logger, the port and
PCI device sets), `ahash` (the random number generator's hasher) and `elf` (ELF
parsing), each called through a small trusted wrapper with its contract.
