use theory_kernel::acpi::fadt::pm_timer_value;
use theory_kernel::arch::x86_64::ioapic::set_redirection;
use theory_kernel::arch::x86_64::pic::disable_sequence;
use theory_kernel::arch::x86_64::tss::stack_smashed;
use theory_kernel::arch::x86_64::xsave::xcr0_for;
use theory_kernel::boot::info::MemoryKind;
use theory_kernel::boot::limine::{limine_mem_kind, request_id, LIMINE_COMMON_MAGIC_0, LIMINE_COMMON_MAGIC_1};
use theory_kernel::fs::block::ahci::{dma_layout, identify_model, implemented_ports, port_base};
use theory_kernel::fs::ext2::{inode_location, mode_to_type};
use theory_kernel::fs::fat32::{cluster_block, short_name};
use theory_kernel::fs::procfs::{format_maps, VmaInfo, VmaKind};
use theory_kernel::fs::vfs::inode::FileType;
use theory_kernel::fs::vfs::path::split_parent;
use theory_kernel::fs::vfs::superblock::FsError;

#[test]
fn fat_short_names() {
    assert_eq!(short_name(b"readme.txt"), b"README  TXT".to_vec());
    assert_eq!(short_name(b"a"), b"A          ".to_vec());
    assert_eq!(short_name(b"verylongname.text"), b"VERYLONGTEX".to_vec());
    assert_eq!(short_name(&[0xff]), b"FILE       ".to_vec());
    assert_eq!(cluster_block(2), 20);
    assert_eq!(cluster_block(3), 21);
}

#[test]
fn ext2_inode_places_and_types() {
    assert_eq!(inode_location(1), (5, 0));
    assert_eq!(inode_location(2), (5, 128));
    assert_eq!(inode_location(33), (6, 0));
    assert_eq!(mode_to_type(0x41ED), FileType::Directory);
    assert_eq!(mode_to_type(0x81A4), FileType::Regular);
    assert_eq!(mode_to_type(0xA1FF), FileType::Symlink);
}

#[test]
fn ahci_ports_and_model() {
    assert_eq!(port_base(0xFEB0_0000, 2), 0xFEB0_0200);
    assert_eq!(dma_layout(0x10_0000), (0x10_0400, 0x10_0800));
    assert_eq!(implemented_ports(0b1010_0001), vec![0, 5, 7]);
    assert_eq!(implemented_ports(0), Vec::<u8>::new());
    let mut words = vec![0u16; 256];
    // "QEMU HARDDISK" byte-swapped in words 27.., padded with spaces.
    let model = b"QEMU HARDDISK                           ";
    for i in 0..20 {
        words[27 + i] = (model[2 * i] as u16) << 8 | model[2 * i + 1] as u16;
    }
    assert_eq!(identify_model(&words), b"QEMU HARDDISK".to_vec());
}

#[test]
fn proc_maps_lines() {
    let vmas = vec![
        VmaInfo { start: 0x40_0000, end: 0x40_1000, read: true, write: false, execute: true, kind: VmaKind::File },
        VmaInfo { start: 0x7fff_0000, end: 0x8000_0000, read: true, write: true, execute: false, kind: VmaKind::Stack },
    ];
    let expected = "0000000000400000-0000000000401000 r-xp 00000000 00:00 0 \n\
                    000000007fff0000-0000000080000000 rw-p 00000000 00:00 0 [stack]\n";
    assert_eq!(format_maps(&vmas), expected.as_bytes().to_vec());
    assert_eq!(format_maps(&Vec::new()), Vec::<u8>::new());
}

#[test]
fn path_parent_split() {
    assert_eq!(split_parent(b"/a/b"), Ok((2, 1)));
    assert_eq!(split_parent(b"/top"), Ok((1, 3)));
    assert_eq!(split_parent(b"name"), Ok((0, 4)));
    assert_eq!(split_parent(b"/"), Err(FsError::Invalid));
    assert_eq!(split_parent(b""), Err(FsError::Invalid));
    assert_eq!(split_parent(b"/dir/"), Err(FsError::Invalid));
}

#[test]
fn small_register_values() {
    assert_eq!(disable_sequence()[0], (0x20, 0x11));
    assert_eq!(disable_sequence().len(), 10);
    assert_eq!(set_redirection(3, 0x21)[0].reg, 0x17);
    assert_eq!(set_redirection(3, 0x21)[1].reg, 0x16);
    assert_eq!(set_redirection(3, 0x21)[1].value, 0x21);
    assert_eq!(xcr0_for(4), 6);
    assert_eq!(xcr0_for(0), 2);
    assert!(stack_smashed(0x1234, 0x5678));
    assert!(!stack_smashed(0x5678, 0x5678));
    assert!(!stack_smashed(0, 0x5678));
    assert_eq!(pm_timer_value(0xFF12_3456), 0x12_3456);
    assert_eq!(limine_mem_kind(5), MemoryKind::BootloaderReclaimable);
    let id = request_id(1, 2);
    assert_eq!(id, [LIMINE_COMMON_MAGIC_0, LIMINE_COMMON_MAGIC_1, 1, 2]);
}
