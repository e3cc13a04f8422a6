# theory_kernel

The decisions, encodings and data structures of the Theory OS kernel, written
in Verus and verified against their contracts.

- `src/` — the verified library.
  - `arch/` — addresses and the direct map, GDT/IDT/TSS descriptors, interrupt
    frames and dispatch, local and I/O APIC register writes, SMP bookkeeping,
    the AP trampoline image, SYSCALL MSRs, CPU security features, XSAVE, and
    the CMOS clock (BCD decoding, calendar/Unix conversion).
  - `acpi/` — RSDP/XSDT walking with checksums, MADT, FADT, DSDT and SRAT
    parsing, and the port writes for power-off and reset.
  - `boot/` — the Limine responses turned into one boot description.
  - `console/` — what goes out on COM1 for a message.
  - `audio/` — PC speaker tone values and the HDA codec scan.
  - `fs/` — block devices and the buffer cache, the RAM disk, NVMe and AHCI
    command encoding (with the NVMe bring-up as a state machine), tmpfs,
    devfs, procfs, sysfs, ext2 and FAT32, the mount table, dentry cache, path
    resolution, file operations, descriptors and the boot mount layout.
- `tests/` — tests of the library on concrete values.
- `app/` — the hardware side: port and MMIO access, the Limine request
  blocks, global state behind `spin` locks, and the loops that perform what
  the library's state machines ask for.
