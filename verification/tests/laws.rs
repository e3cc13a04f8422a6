use theory_kernel::arch::memory::PhysAddr;
use theory_kernel::arch::x86_64::features::{detect, enable, CpuSecurityFeatures, CpuidWords};
use theory_kernel::arch::x86_64::gdt::{kernel_code_selector, kernel_data_selector, user_code_selector, user_data_selector};
use theory_kernel::arch::x86_64::idt::{init as idt_init, set_gate};
use theory_kernel::arch::x86_64::lapic::{send_sipi, LapicWrite};
use theory_kernel::arch::x86_64::syscall::{init_msrs, MsrWrite, IA32_EFER, IA32_FMASK, IA32_LSTAR, IA32_STAR};
use theory_kernel::boot::limine::LimineMemmapEntry;
use theory_kernel::boot::parse_limine;
use theory_kernel::bytes::{read_u16, read_u32, read_u64, u16_le_bytes, u32_le_bytes, u64_le_bytes};
use theory_kernel::fs::block::nvme::{CompletionEntry, QueueState};
use theory_kernel::fs::block::BlockError;
use theory_kernel::fs::ext2::{decode_inode, encode_inode, Ext2Inode};
use theory_kernel::fs::names::{name_eq, name_lt};
use theory_kernel::fs::vfs::dentry::{Dentry, DentryCache};
use theory_kernel::acpi::srat::Srat;
use theory_kernel::fs::block::ramdisk::RamDisk;
use theory_kernel::fs::block::{read_block, write_block, BufferCache};
use theory_kernel::fs::names::utf8_ok;
use theory_kernel::fs::vfs::inode::InodeId;

#[test]
fn little_endian_round_trips() {
    let b = u32_le_bytes(0x1234_5678);
    assert_eq!(b, vec![0x78, 0x56, 0x34, 0x12]);
    assert_eq!(read_u32(&b, 0), 0x1234_5678);
    let b = u16_le_bytes(0xBEEF);
    assert_eq!(b, vec![0xEF, 0xBE]);
    assert_eq!(read_u16(&b, 0), 0xBEEF);
    let b = u64_le_bytes(0x0102_0304_0506_0708);
    assert_eq!(b, vec![8, 7, 6, 5, 4, 3, 2, 1]);
    assert_eq!(read_u64(&b, 0), 0x0102_0304_0506_0708);
}

#[test]
fn ext2_inode_round_trip() {
    let mut block = vec![0u32; 12];
    block[0] = 10;
    block[11] = 0xdead_beef;
    let inode = Ext2Inode { mode: 0x81A4, size: 5000, blocks: 2, block };
    let raw = encode_inode(&inode);
    let mut page = vec![0u8; 300];
    page[128..128 + raw.len()].copy_from_slice(&raw);
    let back = decode_inode(&page, 128);
    assert_eq!(back.mode, 0x81A4);
    assert_eq!(back.size, 5000);
    assert_eq!(back.blocks, 2);
    assert_eq!(back.block, inode.block);
}

#[test]
fn sipi_carries_the_trampoline_page() {
    let w = send_sipi(3, 0x08);
    assert_eq!(w.len(), 2);
    assert_eq!((w[0].offset, w[0].value), (0x310, 3 << 24));
    assert_eq!((w[1].offset, w[1].value), (0x300, 0x608));
    let _: &LapicWrite = &w[0];
}

#[test]
fn cr4_reports_detected_features() {
    // Leaf 1 ECX bit 27 lets leaf 7 be read: SMEP (EBX 7) and UMIP (ECX 2), no SMAP.
    let words = CpuidWords { ecx_1: 1 << 27, edx_8000_0001: 1 << 20, ebx_7: 1 << 7, ecx_7: 1 << 2 };
    let mut f = detect(words);
    assert_eq!(f, CpuSecurityFeatures { nxe: true, smep: true, smap: false, umip: true });
    let regs = enable(&mut f, 0x500, 0x20_0000);
    assert_eq!(regs.efer, Some(0xD00));
    assert_eq!(regs.cr4, 0x10_0800);
    // Without leaf 1 bit 27, leaf 7 is not consulted.
    let none = detect(CpuidWords { ecx_1: 0, edx_8000_0001: 0, ebx_7: u32::MAX, ecx_7: u32::MAX });
    assert_eq!(none, CpuSecurityFeatures { nxe: false, smep: false, smap: false, umip: false });
    let mut g = none;
    assert_eq!(enable(&mut g, 0x800, 0xFFFF_FFFF).cr4, 0xFFCF_F7FF);
}

#[test]
fn syscall_msrs_and_selectors() {
    let w = init_msrs(0x500, 0xffff_ffff_8000_4000);
    assert_eq!(w.len(), 4);
    assert_eq!(w[0], MsrWrite { msr: IA32_EFER, value: 0x501 });
    assert_eq!(w[1], MsrWrite { msr: IA32_STAR, value: 0x0010_0008_0000_0000 });
    assert_eq!(w[2], MsrWrite { msr: IA32_LSTAR, value: 0xffff_ffff_8000_4000 });
    assert_eq!(w[3], MsrWrite { msr: IA32_FMASK, value: 0x200 });
    assert_eq!(
        (kernel_code_selector(), kernel_data_selector(), user_data_selector(), user_code_selector()),
        (0x08, 0x10, 0x1B, 0x23)
    );
}

#[test]
fn idt_gates_split_the_handler_address() {
    let table: Vec<u64> = (0..256u64).map(|v| 0xffff_ffff_8010_0000 + v * 16).collect();
    let idt = idt_init(&table);
    assert_eq!(idt.len(), 256);
    let g = idt[8];
    assert_eq!(g.ist, 1);
    assert_eq!(g.type_attr, 0x8E);
    let addr = g.offset_low as u64 | (g.offset_mid as u64) << 16 | (g.offset_high as u64) << 32;
    assert_eq!(addr, 0xffff_ffff_8010_0080);
    assert_eq!(idt[3].type_attr, 0x8F);
    assert_eq!(idt[1].type_attr, 0x8F);
    assert_eq!(idt[14].type_attr, 0x8E);
    assert_eq!(idt[14].selector, 0x08);
    let mut idt = idt;
    set_gate(&mut idt, 200, 0x1234_5678_9abc_def0, 0, true);
    assert_eq!((idt[200].offset_low, idt[200].offset_mid, idt[200].offset_high), (0xdef0, 0x9abc, 0x1234_5678));
}

#[test]
fn boot_direct_map_round_trip() {
    let mem = [Some(LimineMemmapEntry { base: 0, length: 0x1000, kind: 0 })];
    let info = parse_limine(Some(0xffff_8000_0000_0000), Some(0x20_0000), Some(0xe0000), Some(&mem), None, Some(3), None).unwrap();
    assert_eq!(info.rsdp.map(|r| r.raw), Some(0xe0000));
    assert_eq!(info.memory_map.len(), 1);
    assert_eq!(info.memory_map[0].length, 0x1000);
    assert_eq!(info.bsp_lapic_id, 3);
    let v = info.phys_to_virt(PhysAddr(0x5000));
    assert_eq!(v, 0xffff_8000_0000_5000);
    assert_eq!(info.virt_to_phys(v), Some(PhysAddr(0x5000)));
    assert_eq!(info.virt_to_phys(0x1000), None);
    assert!(parse_limine(None, Some(0), None, Some(&mem), None, None, None).is_none());
    assert!(parse_limine(Some(0), None, None, Some(&mem), None, None, None).is_none());
    assert!(parse_limine(Some(0), Some(0), None, None, None, None, None).is_none());
    assert!(parse_limine(Some(0), Some(0), None, Some(&[None]), None, None, None).is_none());
}

#[test]
fn completion_phase_flips_after_a_lap() {
    let mut q = QueueState::new();
    let done = |phase: u16| CompletionEntry { dw0: 0, dw1: 0, sq_head: 0, sq_id: 0, cid: 0, status: phase };
    assert_eq!(q.complete(done(0)), None);
    for _ in 0..64 {
        assert!(matches!(q.complete(done(1)), Some(Ok(_))));
    }
    assert_eq!(q.cq_head, 0);
    assert_eq!(q.phase, 0);
    assert_eq!(q.complete(done(1)), None);
    assert_eq!(q.complete(done(0 | (1 << 1))), Some(Err(BlockError::Io)));
    let (cid, tagged, tail) = q.submit(theory_kernel::fs::block::nvme::SubmissionEntry::zeroed());
    assert_eq!((cid, tagged.cdw0, tail), (0, 0, 1));
}

#[test]
fn names_order_bytewise() {
    assert!(name_lt(b"abc", b"abd"));
    assert!(name_lt(b"ab", b"abc"));
    assert!(!name_lt(b"abc", b"abc"));
    assert!(!name_lt(b"b", b"abc"));
    assert!(name_eq(b"x", b"x"));
    assert!(!name_eq(b"x", b"xy"));
}

fn dentry(parent: InodeId, name: &[u8], inode: InodeId) -> Dentry {
    let mut d = Dentry::empty();
    d.parent = parent;
    d.name_hash = DentryCache::hash(parent, name);
    d.name_len = name.len() as u8;
    d.name[..name.len()].copy_from_slice(name);
    d.inode = inode;
    d.generation = 1;
    d
}

#[test]
fn dentry_insert_get_invalidate() {
    let mut cache = DentryCache::new();
    let dir = InodeId::new(0, 1);
    let file = InodeId::new(0, 7);
    assert!(cache.get(dir, b"etc").is_none());
    cache.insert(dentry(dir, b"etc", file));
    assert_eq!(cache.get(dir, b"etc").map(|d| d.inode), Some(file));
    assert!(cache.get(dir, b"etd").is_none());
    assert!(cache.get(InodeId::new(1, 1), b"etc").is_none());
    cache.invalidate_inode(file);
    assert!(cache.get(dir, b"etc").is_none());
}

#[test]
fn dentry_insert_keeps_other_answers_and_invalidate_keeps_other_inodes() {
    let mut cache = DentryCache::new();
    let dir = InodeId::new(0, 1);
    let (a, b, c) = (InodeId::new(0, 7), InodeId::new(0, 8), InodeId::new(0, 9));
    cache.insert(dentry(dir, b"a", a));
    cache.insert(dentry(dir, b"b", b));
    cache.insert(dentry(dir, b"c", c));
    assert_eq!(cache.get(dir, b"c").map(|d| d.inode), Some(c));
    assert_eq!(cache.get(dir, b"a").map(|d| d.inode), Some(a));
    assert_eq!(cache.get(dir, b"b").map(|d| d.inode), Some(b));
    cache.invalidate_inode(b);
    assert!(cache.get(dir, b"b").is_none());
    assert_eq!(cache.get(dir, b"a").map(|d| d.inode), Some(a));
    assert_eq!(cache.get(dir, b"c").map(|d| d.inode), Some(c));
}

fn srat_with(nodes: &[u16]) -> Vec<u8> {
    let mut t = vec![0u8; 48];
    for (i, n) in nodes.iter().enumerate() {
        let mut r = vec![0u8; 40];
        r[0] = 1;
        r[1] = 40;
        r[6..8].copy_from_slice(&n.to_le_bytes());
        r[8..16].copy_from_slice(&((i as u64) << 20).to_le_bytes());
        r[16..24].copy_from_slice(&(1u64 << 20).to_le_bytes());
        t.extend_from_slice(&r);
    }
    let len = t.len() as u32;
    t[4..8].copy_from_slice(&len.to_le_bytes());
    t.extend_from_slice(&[0u8; 22]);
    t
}

#[test]
fn srat_node_count_is_one_past_the_highest_node() {
    let s = Srat::parse(&srat_with(&[]));
    assert_eq!(s.node_count(), 1);
    let s = Srat::parse(&srat_with(&[0, 3, 1]));
    assert_eq!(s.node_count(), 4);
    assert_eq!(s.memory_affinities().iter().map(|a| a.node).collect::<Vec<_>>(), vec![0, 3, 1]);
    // Only the low 12 bits name the node.
    let s = Srat::parse(&srat_with(&[0xF005, 0x0FFF]));
    assert_eq!(s.memory_affinities()[0].node, 5);
    assert_eq!(s.node_count(), 4096);
}

#[test]
fn srat_read_by_its_own_length() {
    // A table that holds exactly its declared length is read whole.
    let mut t = srat_with(&[1, 2]);
    t.truncate(t.len() - 22);
    let s = Srat::parse(&t);
    assert_eq!(s.memory_affinities().len(), 2);
    assert_eq!(s.node_count(), 3);
    assert_eq!(s.memory_affinities()[1].base, PhysAddr(1 << 20));
    assert_eq!(s.memory_affinities()[1].length, 1 << 20);
    // A record that runs past the bytes at hand is passed over.
    let mut t = vec![0u8; 48 + 40];
    t[48] = 1;
    t[49] = 40;
    t[48 + 6] = 7;
    let short = 48 + 20;
    t[4..8].copy_from_slice(&(short as u32).to_le_bytes());
    t.truncate(short);
    let s = Srat::parse(&t);
    assert_eq!(s.memory_affinities().len(), 0);
    assert_eq!(s.node_count(), 1);
}

#[test]
fn cached_block_write_reads_back() {
    let mut dev = RamDisk::new(4 * 4096).unwrap();
    let mut cache = BufferCache::new();
    let mut buf = vec![0u8; 16];
    assert_eq!(read_block(&mut cache, &dev, 0, 1, &mut buf), Ok(()));
    let data: Vec<u8> = (0..4096u32).map(|i| (i % 251) as u8).collect();
    assert_eq!(write_block(&mut cache, &mut dev, 0, 1, &data), Ok(()));
    assert_eq!(read_block(&mut cache, &dev, 0, 1, &mut buf), Ok(()));
    assert_eq!(buf, data[..16].to_vec());
    // A failed write of an uncached block changes nothing.
    assert_eq!(write_block(&mut cache, &mut dev, 0, 9, &data), Err(BlockError::OutOfRange));
    assert_eq!(read_block(&mut cache, &dev, 0, 2, &mut buf), Ok(()));
    assert_eq!(buf, vec![0u8; 16]);
}

#[test]
fn utf8_check_refuses_malformed_bytes() {
    assert!(utf8_ok("héllo".as_bytes()));
    assert!(utf8_ok(b""));
    assert!(!utf8_ok(b"\xff"));
    assert!(!utf8_ok(b"\xc0\xaf"));
    assert!(!utf8_ok(b"\xed\xa0\x80"));
    assert!(!utf8_ok(b"\xe2\x82"));
}
