use theory_kernel::acpi::madt::Madt;
use theory_kernel::acpi::power::{kbc_ready, pm1_value, reset_via_register, shutdown_writes};
use theory_kernel::acpi::init as acpi_init;
use theory_kernel::acpi::tables::{acpi_checksum, FirmwareMemory, MemoryWindow};
use theory_kernel::boot::parse_limine;
use theory_kernel::arch::memory::PhysAddr;
use theory_kernel::audio::hda::{ScanStage, PARAM_VENDOR_ID, rirb_ready, ring_next, verb_command, CodecScan, VerbRequest};
use theory_kernel::audio::pcspeaker::{divisor_bytes, speaker_off, speaker_on, tone_divisor};
use theory_kernel::boot::info::MemoryKind;
use theory_kernel::boot::limine::{parse_memory_map, LimineMemmapEntry};
use theory_kernel::console::serial::{can_transmit, init_sequence, SerialPort};
use theory_kernel::console::Console;
use theory_kernel::fs::block::ahci::{
    command_status, command_wait, rw_fis, sector_count, COMMAND_POLLS, PortAction, PortEvent, PortInit, PortInitError, PortPhase, P_CLB, P_CLBU, P_CMD,
    P_FB, P_SIG, P_SSTS,
};
use theory_kernel::fs::block::nvme::{
    controller_model, doorbell_stride, doorbells, ns_geometry, InitPhase, NvmeAction, NvmeEvent, NvmeInit,
    NvmeInitError,
};
use theory_kernel::fs::block::BlockError;
use theory_kernel::text::{dec_pad, dec_u64, hex16, hex_u64, parse_u32};

fn ns_page(nsze: u64, lbads: u8) -> Vec<u8> {
    let mut p = vec![0u8; 4096];
    p[0..8].copy_from_slice(&nsze.to_le_bytes());
    p[26] = 1;
    p[128 + 4 + 2] = lbads;
    p
}

fn ctrl_page(model: &[u8]) -> Vec<u8> {
    let mut p = vec![0u8; 4096];
    for b in &mut p[24..64] {
        *b = b' ';
    }
    p[24..24 + model.len()].copy_from_slice(model);
    p
}

/// Runs a bring-up against a simulated controller that takes `ready_after`
/// CSTS reads to come ready (after enabling) and answers commands with `ok`.
fn bring_up(ready_after: u32, ok: bool, pages: u32) -> NvmeInit {
    let mut init = NvmeInit::new();
    let mut enabled = false;
    let mut reads = 0u32;
    let mut next_page = 0x10_0000u64;
    let mut left = pages;
    let mut steps = 0u64;
    loop {
        steps += 1;
        assert!(steps < 3_000_000);
        let ev = match init.action() {
            NvmeAction::ReadCap => NvmeEvent::Register(2u64 << 32),
            NvmeAction::ReadCc => NvmeEvent::Register(0x0046_0001),
            NvmeAction::WriteCc(v) => {
                enabled = v & 1 == 1;
                reads = 0;
                NvmeEvent::Written
            }
            NvmeAction::ReadCsts => {
                reads += 1;
                let ready = enabled && reads > ready_after;
                NvmeEvent::Register(if ready { 1 } else { 0 })
            }
            NvmeAction::AllocPage => {
                if left == 0 {
                    NvmeEvent::Page(None)
                } else {
                    left -= 1;
                    next_page += 0x1000;
                    NvmeEvent::Page(Some(next_page))
                }
            }
            NvmeAction::SetAdminQueues { .. } => NvmeEvent::Written,
            NvmeAction::Admin(_) => NvmeEvent::Completed(ok),
            NvmeAction::ReadPage(_) => {
                if init.phase == InitPhase::ReadNs {
                    NvmeEvent::Data(ns_page(0x20_0000, 12))
                } else {
                    NvmeEvent::Data(ctrl_page(b"QEMU NVMe Ctrl"))
                }
            }
            NvmeAction::Finished | NvmeAction::Failed(_) => return init,
        };
        init.feed(ev);
    }
}

#[test]
fn nvme_bring_up_succeeds() {
    let init = bring_up(3, true, 100);
    assert_eq!(init.phase, InitPhase::Done);
    assert_eq!(init.stride, 16);
    assert_eq!(init.cc, 0x0046_0000);
    assert_eq!(init.lba_count, 0x20_0000);
    assert_eq!(init.lba_size, 4096);
    assert_eq!(init.model, b"QEMU NVMe Ctrl".to_vec());
    assert_eq!(init.admin_sq, 0x10_1000);
    assert_eq!(init.admin_cq, 0x10_2000);
    assert_eq!(init.id_buf, 0x10_3000);
    assert_eq!(init.io_sq, 0x10_4000);
    assert_eq!(init.io_cq, 0x10_5000);
    assert_eq!(init.bounce, 0x10_6000);
}

#[test]
fn nvme_bring_up_failures() {
    assert_eq!(bring_up(3, false, 100).phase, InitPhase::Failed(NvmeInitError::IdentifyFailed));
    assert_eq!(bring_up(3, true, 1).phase, InitPhase::Failed(NvmeInitError::NoMemory));
    assert_eq!(bring_up(u32::MAX, true, 100).phase, InitPhase::Failed(NvmeInitError::NotReady));
}

#[test]
fn nvme_registers_and_identify_data() {
    assert_eq!(doorbell_stride(0), 4);
    assert_eq!(doorbell_stride(0xF << 32), 131072);
    assert_eq!(doorbells(4), (0x1000, 0x1004, 0x1008, 0x100C));
    assert_eq!(ns_geometry(&ns_page(1000, 3)), (1000, 512));
    assert_eq!(ns_geometry(&ns_page(1000, 12)), (1000, 4096));
    assert_eq!(controller_model(&ctrl_page(b"  Disk")), b"Disk".to_vec());
    let mut nul_padded = vec![0u8; 4096];
    nul_padded[24..28].copy_from_slice(b"Disk");
    assert_eq!(controller_model(&nul_padded), b"Disk".to_vec());
    // Trailing NULs are cut only at the very end; spaces before them stay.
    let mut mixed = vec![0u8; 4096];
    mixed[24..30].copy_from_slice(b"Disk\0 ");
    assert_eq!(controller_model(&mixed), b"Disk\0".to_vec());
    // Unicode white space (U+3000, U+00A0) is trimmed too.
    let mut uni = vec![0u8; 4096];
    let m = "\u{3000}Disk\u{a0}".as_bytes();
    uni[24..24 + m.len()].copy_from_slice(m);
    assert_eq!(controller_model(&uni), b"Disk".to_vec());
    let mut bad = ctrl_page(b"x");
    bad[30] = 0xff;
    assert_eq!(controller_model(&bad), Vec::<u8>::new());
}

#[test]
fn ahci_fis_and_status() {
    let f = rw_fis(0x0102_0304_0506, 8, true);
    assert_eq!(f.len(), 64);
    assert_eq!(&f[0..14], &[0x27, 0x80, 0x35, 0, 0x06, 0x05, 0x04, 0x40, 0x03, 0x02, 0x01, 0, 8, 0]);
    let r = rw_fis(1, 0x0102, false);
    assert_eq!(r[2], 0x25);
    assert_eq!((r[12], r[13]), (0x02, 0x01));
    assert_eq!(command_status(0, 0, 0), Some(Ok(())));
    assert_eq!(command_status(0, 1 << 30, 0), Some(Err(BlockError::Io)));
    assert_eq!(command_status(1, 0, 1), Some(Err(BlockError::Io)));
    assert_eq!(command_status(1, 0, 0), None);
    assert_eq!(command_wait(0, 1, 0, 0), None);
    assert_eq!(command_wait(COMMAND_POLLS - 2, 1, 0, 0), None);
    assert_eq!(command_wait(COMMAND_POLLS - 1, 1, 0, 0), Some(Err(BlockError::Io)));
    assert_eq!(command_wait(COMMAND_POLLS - 1, 0, 0, 0), Some(Ok(())));
    let mut words = vec![0u16; 256];
    words[60] = 0x1000;
    assert_eq!(sector_count(&words), 0x1000);
    words[100] = 0x2;
    words[101] = 0x1;
    assert_eq!(sector_count(&words), 0x1_0002);
}

fn codec_answer(req: &VerbRequest) -> Option<u32> {
    // One codec at address 2: root node 0 holds function group node 1 (audio),
    // whose widgets 2..5 are output, input, output.
    match (req.codec, req.node, req.data) {
        (2, 0, 0x00) => Some(0x10EC_0269),
        (2, 0, 0x04) => Some(0x0001_0001),
        (2, 1, 0x05) => Some(0x01),
        (2, 1, 0x04) => Some(0x0002_0003),
        (2, 2, 0x09) => Some(0x0000_0000),
        (2, 3, 0x09) => Some(0x0010_0000),
        (2, 4, 0x09) => Some(0x0000_0001),
        (5, 0, 0x00) => None,
        _ => None,
    }
}

#[test]
fn hda_codec_scan() {
    let mut scan = CodecScan::new((1 << 2) | (1 << 5));
    // The scan starts by asking the first present codec for its vendor id.
    assert_eq!(scan.addr, 2);
    assert_eq!(scan.stage, ScanStage::Vendor);
    assert_eq!(scan.request().map(|r| (r.codec, r.node, r.data)), Some((2, 0, PARAM_VENDOR_ID)));
    assert_eq!(CodecScan::new(0).request(), None);
    let mut steps = 0;
    while let Some(req) = scan.request() {
        steps += 1;
        assert!(steps < 100);
        let ans = codec_answer(&req);
        scan.feed(ans);
    }
    assert_eq!(scan.codecs.len(), 1);
    let c = scan.codecs[0];
    assert_eq!((c.address, c.vendor, c.device, c.output_count), (2, 0x10EC, 0x0269, 2));
    assert_eq!(verb_command(2, 1, 0xF00, 0x04), 0x201F_0004);
    assert_eq!(ring_next(255, 256), 0);
    assert_eq!(rirb_ready(5, 5, 256), None);
    assert_eq!(rirb_ready(0x106, 5, 256), Some(6));
}

#[test]
fn pc_speaker() {
    assert_eq!(tone_divisor(880), Some(1355));
    assert_eq!(tone_divisor(0), None);
    assert_eq!(divisor_bytes(1355), (0x4B, 0x05));
    assert_eq!(speaker_on(0x00), Some(0x03));
    assert_eq!(speaker_on(0x03), None);
    assert_eq!(speaker_off(0xFF), 0xFC);
}

#[test]
fn acpi_power_values() {
    assert_eq!(pm1_value(5), 0x3400);
    assert_eq!(shutdown_writes(Some(0x604), None, Some((5, 5))), Some(vec![(0x604, 0x3400)]));
    assert_eq!(shutdown_writes(Some(0x604), Some(0x608), Some((5, 7))), Some(vec![(0x604, 0x3400), (0x608, 0x3C00)]));
    assert_eq!(shutdown_writes(None, None, Some((5, 5))), None);
    assert_eq!(shutdown_writes(Some(0x604), None, None), None);
    assert_eq!(reset_via_register(Some(1), 0xCF9, 6), Some((0xCF9, 6)));
    assert_eq!(reset_via_register(Some(0), 0xCF9, 6), None);
    assert!(kbc_ready(0x00));
    assert!(!kbc_ready(0x02));
}

#[test]
fn acpi_checksums() {
    assert!(acpi_checksum(&[0x10, 0xF0]));
    assert!(!acpi_checksum(&[0x10, 0xF1]));
    assert!(acpi_checksum(&[]));
}

#[test]
fn madt_entries() {
    let mut t = vec![0u8; 44];
    t[0..4].copy_from_slice(b"APIC");
    t[36..40].copy_from_slice(&0xFEE0_0000u32.to_le_bytes());
    // Local APIC: processor 0, APIC id 0, enabled.
    t.extend_from_slice(&[0, 8, 0, 0, 1, 0, 0, 0]);
    // Local APIC: processor 1, APIC id 2, disabled.
    t.extend_from_slice(&[0, 8, 1, 2, 0, 0, 0, 0]);
    // I/O APIC id 3 at 0xFEC00000, GSI base 0.
    t.extend_from_slice(&[1, 12, 3, 0, 0x00, 0x00, 0xC0, 0xFE, 0, 0, 0, 0]);
    // Override: ISA IRQ 0 to GSI 2, flags 0.
    t.extend_from_slice(&[2, 10, 0, 0, 2, 0, 0, 0, 0, 0]);
    let len = t.len() as u32;
    t[4..8].copy_from_slice(&len.to_le_bytes());
    let m = Madt::parse(&t);
    assert_eq!(m.local_apic_address(), PhysAddr(0xFEE0_0000));
    assert_eq!(m.local_apics().len(), 2);
    assert!(m.local_apics()[0].enabled);
    assert!(!m.local_apics()[1].enabled);
    assert_eq!(m.local_apics()[1].apic_id, 2);
    assert_eq!(m.io_apics().len(), 1);
    assert_eq!(m.io_apics()[0].address, PhysAddr(0xFEC0_0000));
    assert_eq!(m.interrupt_overrides().len(), 1);
    assert_eq!(m.interrupt_overrides()[0].global_system_interrupt, 2);
}

#[test]
fn limine_memory_map() {
    let e = [
        Some(LimineMemmapEntry { base: 0, length: 0x9f000, kind: 0 }),
        Some(LimineMemmapEntry { base: 0x9f000, length: 0x1000, kind: 1 }),
        Some(LimineMemmapEntry { base: 0x100000, length: 0x1000, kind: 9 }),
    ];
    let m = parse_memory_map(&e).unwrap();
    assert_eq!(m.len(), 3);
    assert_eq!(m[0].kind, MemoryKind::Usable);
    assert_eq!(m[1].kind, MemoryKind::Reserved);
    assert_eq!(m[2].kind, MemoryKind::Unknown);
    assert_eq!(m[2].start, PhysAddr(0x100000));
    // A missing entry, or more entries than the table holds, refuses the map.
    let holed = [e[0], None, e[2]];
    assert_eq!(parse_memory_map(&holed), None);
    let long = vec![e[0]; 257];
    assert_eq!(parse_memory_map(&long), None);
    assert_eq!(parse_memory_map(&long[..256]).map(|m| m.len()), Some(256));
}

#[test]
fn console_text_and_serial_setup() {
    assert_eq!(Console::println("a\nb"), b"a\r\nb\r\n".to_vec());
    assert_eq!(Console::print("x"), b"x".to_vec());
    assert_eq!(SerialPort::new(0).encode("\n"), b"\r\n".to_vec());
    assert_eq!(init_sequence()[0], (0x3F9, 0x00));
    assert_eq!(init_sequence().len(), 7);
    assert!(can_transmit(0x20));
    assert!(!can_transmit(0x1F));
}

#[test]
fn numbers_as_text() {
    assert_eq!(dec_u64(0), b"0".to_vec());
    assert_eq!(dec_u64(1234567890), b"1234567890".to_vec());
    assert_eq!(dec_u64(u64::MAX), b"18446744073709551615".to_vec());
    assert_eq!(dec_pad(7, 2), b"07".to_vec());
    assert_eq!(dec_pad(12345, 4), b"12345".to_vec());
    assert_eq!(hex_u64(0), b"0".to_vec());
    assert_eq!(hex_u64(0x1f), b"1f".to_vec());
    assert_eq!(hex16(0xabc), b"0000000000000abc".to_vec());
    assert_eq!(parse_u32(b"42"), Some(42));
    assert_eq!(parse_u32(b"+5"), Some(5));
    assert_eq!(parse_u32(b"4294967295"), Some(u32::MAX));
    assert_eq!(parse_u32(b"4294967296"), None);
    assert_eq!(parse_u32(b""), None);
    assert_eq!(parse_u32(b"+"), None);
    assert_eq!(parse_u32(b"-1"), None);
    assert_eq!(parse_u32(b"12a"), None);
}

fn put(mem: &mut [u8], at: usize, bytes: &[u8]) {
    mem[at..at + bytes.len()].copy_from_slice(bytes);
}

fn sdt(sig: &[u8; 4], len: u32) -> Vec<u8> {
    let mut h = vec![0u8; len as usize];
    h[..4].copy_from_slice(sig);
    h[4..8].copy_from_slice(&len.to_le_bytes());
    h
}

/// Firmware tables at physical 0x1000..0x3000, seen through the direct map:
/// RSDP, XSDT, MADT (two CPUs), FADT, DSDT and SRAT (nodes 0 and 2).
fn firmware(hhdm: u64) -> FirmwareMemory {
    let mut m = vec![0u8; 0x2000];
    let mut rsdp = vec![0u8; 36];
    rsdp[..8].copy_from_slice(b"RSD PTR ");
    rsdp[15] = 2;
    rsdp[24..32].copy_from_slice(&0x1100u64.to_le_bytes());
    put(&mut m, 0x000, &rsdp);
    let mut xsdt = sdt(b"XSDT", 36 + 3 * 8);
    for (i, a) in [0x1200u64, 0x1400, 0x1800].iter().enumerate() {
        xsdt[36 + 8 * i..44 + 8 * i].copy_from_slice(&a.to_le_bytes());
    }
    put(&mut m, 0x100, &xsdt);
    let mut madt = sdt(b"APIC", 44 + 16);
    madt[36..40].copy_from_slice(&0xFEE0_0000u32.to_le_bytes());
    put(&mut madt, 44, &[0, 8, 0, 0, 1, 0, 0, 0]);
    put(&mut madt, 52, &[0, 8, 1, 1, 1, 0, 0, 0]);
    put(&mut m, 0x200, &madt);
    let mut fadt = sdt(b"FACP", 244);
    fadt[40..44].copy_from_slice(&0x1C00u32.to_le_bytes());
    fadt[76..80].copy_from_slice(&0x608u32.to_le_bytes());
    fadt[91] = 4;
    put(&mut m, 0x400, &fadt);
    put(&mut m, 0xC00, &sdt(b"DSDT", 40));
    let mut srat = sdt(b"SRAT", 48 + 2 * 40);
    for (i, node) in [0u16, 2].iter().enumerate() {
        let r = 48 + 40 * i;
        srat[r] = 1;
        srat[r + 1] = 40;
        srat[r + 6..r + 8].copy_from_slice(&node.to_le_bytes());
    }
    put(&mut m, 0x800, &srat);
    FirmwareMemory { windows: vec![MemoryWindow { base: hhdm + 0x1000, bytes: m }] }
}

#[test]
fn acpi_init_reads_the_firmware_tables() {
    let hhdm = 0xffff_8000_0000_0000u64;
    let mem = [Some(LimineMemmapEntry { base: 0, length: 0x10_0000, kind: 0 })];
    let boot = parse_limine(Some(hhdm), Some(0x20_0000), Some(0x1000), Some(&mem), None, Some(0), None).unwrap();
    let ctx = acpi_init(&boot, &firmware(hhdm));
    assert_eq!(ctx.madt().local_apic_address(), PhysAddr(0xFEE0_0000));
    assert_eq!(ctx.madt().local_apics().len(), 2);
    assert_eq!(ctx.madt().local_apics()[1].apic_id, 1);
    let fadt = ctx.fadt().unwrap();
    assert_eq!(fadt.pm_timer_block, Some(PhysAddr(0x608)));
    assert!(ctx.dsdt().is_some());
    assert_eq!(ctx.srat().unwrap().node_count(), 3);
    // The SRAT is read by its own length, with nothing readable after it.
    let mut fw = firmware(hhdm);
    fw.windows[0].bytes.truncate(0x800 + 48 + 2 * 40);
    let ctx = acpi_init(&boot, &fw);
    assert_eq!(ctx.srat().unwrap().node_count(), 3);
    assert!(ctx.fadt().is_some() && ctx.dsdt().is_none());
    // Without readable tables, the single-CPU defaults stand in.
    let empty = FirmwareMemory { windows: Vec::new() };
    let ctx = acpi_init(&boot, &empty);
    assert_eq!(ctx.madt().local_apics().len(), 1);
    assert!(ctx.fadt().is_none() && ctx.dsdt().is_none() && ctx.srat().is_none());
}

fn identify_words(model: &[u8], sectors: u64) -> Vec<u16> {
    let mut w = vec![0u16; 256];
    let mut padded = model.to_vec();
    padded.resize(40, b' ');
    for i in 0..20 {
        w[27 + i] = ((padded[2 * i] as u16) << 8) | padded[2 * i + 1] as u16;
    }
    for i in 0..4 {
        w[100 + i] = (sectors >> (16 * i)) as u16;
    }
    w
}

#[test]
fn ahci_port_bring_up_steps() {
    let mut init = PortInit::new();
    let mut actions = Vec::new();
    let mut cmd_reads = 0;
    loop {
        let a = init.action();
        actions.push(a);
        let ev = match a {
            PortAction::Read(P_SSTS) => PortEvent::Register(0x113),
            PortAction::Read(P_SIG) => PortEvent::Register(0x101),
            PortAction::Read(P_CMD) => {
                cmd_reads += 1;
                // Running at first, the engines stop on the third read.
                PortEvent::Register(if cmd_reads < 3 { 0xC011 } else { 0 })
            }
            PortAction::Read(_) => panic!("unexpected register"),
            PortAction::Write(_, _) => PortEvent::Written,
            PortAction::AllocPage => PortEvent::Page(Some(if init.phase == PortPhase::AllocCmdList { 0x1_2345_0000 } else { 0x9000 })),
            PortAction::Identify { .. } => PortEvent::Identified(Some(identify_words(b"QEMU HARDDISK", 0x20_0000))),
            PortAction::Finished | PortAction::Failed(_) => break,
        };
        init.feed(ev);
    }
    assert_eq!(init.phase, PortPhase::Done);
    assert_eq!(init.sector_count, 0x20_0000);
    assert_eq!(init.model, b"QEMU HARDDISK".to_vec());
    assert_eq!(&actions[..4], &[PortAction::Read(P_SSTS), PortAction::Read(P_SIG), PortAction::Read(P_CMD),
        PortAction::Write(P_CMD, 0xC000)]);
    assert!(actions.contains(&PortAction::Write(P_CLB, 0x2345_0000)));
    assert!(actions.contains(&PortAction::Write(P_CLBU, 1)));
    assert!(actions.contains(&PortAction::Write(P_FB, 0x2345_0400)));
    assert!(actions.contains(&PortAction::Write(P_CMD, 0x0011)));
    assert_eq!(actions[actions.len() - 2], PortAction::Identify { cmd_list_phys: 0x1_2345_0000, bounce_phys: 0x9000 });
    assert_eq!(actions[actions.len() - 1], PortAction::Finished);

    // A port without an ATA disk is given up after its signature.
    let mut init = PortInit::new();
    init.feed(PortEvent::Register(0x113));
    init.feed(PortEvent::Register(0xEB14_0101));
    assert_eq!(init.action(), PortAction::Failed(PortInitError::NoDevice));
    // No memory for the command list.
    let mut init = PortInit::new();
    init.feed(PortEvent::Register(0x113));
    init.feed(PortEvent::Register(0x101));
    init.feed(PortEvent::Register(0));
    init.feed(PortEvent::Written);
    init.feed(PortEvent::Register(0));
    assert_eq!(init.action(), PortAction::AllocPage);
    init.feed(PortEvent::Page(None));
    assert_eq!(init.action(), PortAction::Failed(PortInitError::NoMemory));
}
