use theory_kernel::fs::block::ramdisk::RamDisk;
use theory_kernel::fs::block::{read_block, write_block, BlockDevice, BlockError, BufferCache, BLOCK_SIZE};
use theory_kernel::fs::devfs::DevFs;
use theory_kernel::fs::errno::fs_err_to_errno;
use theory_kernel::fs::ext2::Ext2Fs;
use theory_kernel::fs::fat32::Fat32Fs;
use theory_kernel::fs::fd::{FdEntry, FdTable, OpenFlags, FD_CLOEXEC, O_RDONLY, O_RDWR};
use theory_kernel::fs::init;
use theory_kernel::fs::procfs::{ProcFs, ProcSnapshot, CPUINFO_INO};
use theory_kernel::fs::rootfs::{applets, bin_path, populate, EmbeddedImages};
use theory_kernel::fs::sysfs::SysFs;
use theory_kernel::fs::tmpfs::TmpFs;
use theory_kernel::fs::vfs::file::OpenFile;
use theory_kernel::fs::vfs::inode::{FileType, InodeId, InodeMode};
use theory_kernel::fs::vfs::mount::MountTable;
use theory_kernel::fs::vfs::ops::{
    lseek_target, mkdir_path, open_path, read_file, read_path, stat_path, symlink_path, write_path, SEEK_CUR, SEEK_END,
    SEEK_SET,
};
use theory_kernel::fs::vfs::path::{lookup_parent, resolve_path, resolve_path_at};
use theory_kernel::fs::vfs::superblock::{DirEntry, FileSystem, FsError};

fn root_of<F: FileSystem>(fs: &F) -> InodeId {
    fs.root()
}

#[test]
fn tmpfs_create_then_lookup() {
    let mut fs = TmpFs::new(3);
    let root = root_of(&fs);
    assert_eq!(root, InodeId { mount: 3, ino: 1 });
    let f = fs.create(root, b"notes", FileType::Regular, InodeMode::default_file()).unwrap();
    assert_eq!(fs.lookup(root, b"notes"), Ok(f));
    assert_eq!(fs.lookup(root, b"other"), Err(FsError::NotFound));
    assert_eq!(fs.create(root, b"notes", FileType::Regular, InodeMode::default_file()), Err(FsError::Exists));
    assert_eq!(fs.create(f, b"x", FileType::Regular, InodeMode::default_file()), Err(FsError::NotDir));
    assert_eq!(fs.create(root, b"", FileType::Regular, InodeMode::default_file()), Err(FsError::Invalid));
    // Names must be UTF-8.
    assert_eq!(fs.create(root, &[0xff, 0xfe], FileType::Regular, InodeMode::default_file()), Err(FsError::Invalid));
    assert_eq!(fs.lookup(root, &[0xc3, 0x28]), Err(FsError::Invalid));
    // Another mount's inode is not found here.
    assert_eq!(fs.lookup(InodeId { mount: 9, ino: 1 }, b"notes"), Err(FsError::NotFound));
}

#[test]
fn tmpfs_write_then_read() {
    let mut fs = TmpFs::new(0);
    let root = root_of(&fs);
    let f = fs.create(root, b"a", FileType::Regular, InodeMode::default_file()).unwrap();
    assert_eq!(fs.write(f, 0, b"hello"), Ok(5));
    assert_eq!(fs.write(f, 7, b"!!"), Ok(2));
    let mut buf = vec![0u8; 16];
    assert_eq!(fs.read(f, 0, &mut buf), Ok(9));
    assert_eq!(&buf[..9], b"hello\0\0!!");
    let mut small = vec![0u8; 3];
    assert_eq!(fs.read(f, 4, &mut small), Ok(3));
    assert_eq!(small, b"o\0\0".to_vec());
    assert_eq!(fs.read(f, 100, &mut small), Ok(0));
    assert_eq!(fs.getattr(f).unwrap().size, 9);
    assert_eq!(fs.truncate(f, 2), Ok(()));
    assert_eq!(fs.read(f, 0, &mut buf), Ok(2));
    assert_eq!(fs.read(root, 0, &mut buf), Err(FsError::NotFile));
}

#[test]
fn tmpfs_readdir_is_sorted_and_unlink_removes() {
    let mut fs = TmpFs::new(0);
    let root = root_of(&fs);
    fs.mkdir(root, b"zeta", InodeMode::default_dir()).unwrap();
    fs.create(root, b"alpha", FileType::Regular, InodeMode::default_file()).unwrap();
    fs.create(root, b"mid", FileType::Regular, InodeMode::default_file()).unwrap();
    let mut names: Vec<Vec<u8>> = Vec::new();
    let mut i = 0u64;
    loop {
        let mut e = DirEntry::empty();
        match fs.readdir(root, i, &mut e) {
            Ok(true) => names.push(e.name.clone()),
            Ok(false) => break,
            Err(err) => panic!("readdir failed: {err:?}"),
        }
        i += 1;
    }
    assert_eq!(names, vec![b".".to_vec(), b"..".to_vec(), b"alpha".to_vec(), b"mid".to_vec(), b"zeta".to_vec()]);
    assert_eq!(fs.unlink(root, b"mid"), Ok(()));
    assert_eq!(fs.lookup(root, b"mid"), Err(FsError::NotFound));
    assert_eq!(fs.unlink(root, b"mid"), Err(FsError::NotFound));
}

#[test]
fn tmpfs_symlink_target_read_back() {
    let mut fs = TmpFs::new(0);
    let root = root_of(&fs);
    let l = fs.symlink(root, b"sh", b"busybox", InodeMode::default_file()).unwrap();
    let mut buf = Vec::new();
    assert_eq!(fs.readlink(l, &mut buf), Ok(7));
    assert_eq!(buf, b"busybox".to_vec());
    assert_eq!(fs.getattr(l).unwrap().file_type, FileType::Symlink);
    assert_eq!(fs.readlink(root, &mut buf), Err(FsError::NotSymlink));
}

#[test]
fn tmpfs_root_dirs() {
    let mut fs = TmpFs::new(0);
    let names: [&[u8]; 3] = [b"proc", b"dev", b"proc"];
    fs.with_root_dirs(&names);
    let root = root_of(&fs);
    let p = fs.lookup(root, b"proc").unwrap();
    assert_eq!(fs.getattr(p).unwrap().file_type, FileType::Directory);
    assert!(fs.lookup(root, b"dev").is_ok());
}

#[test]
fn mount_lookup_takes_longest_prefix() {
    let mut table: MountTable<TmpFs> = MountTable::new();
    assert_eq!(table.register(b"", TmpFs::new(0)), Ok(0));
    assert_eq!(table.register(b"/mnt", TmpFs::new(1)), Ok(1));
    assert_eq!(table.register(b"/mnt/data", TmpFs::new(2)), Ok(2));
    assert_eq!(table.count(), 3);
    assert_eq!(table.find_mount_for_path(b"/mnt/data/x"), (2, 9));
    assert_eq!(table.find_mount_for_path(b"/mnt/database"), (1, 4));
    assert_eq!(table.find_mount_for_path(b"/mnt"), (1, 4));
    assert_eq!(table.find_mount_for_path(b"/etc"), (0, 0));
    assert_eq!(table.find_mount_for_path(b"relative"), (0, 0));
}

#[test]
fn mount_table_holds_at_most_sixteen() {
    let mut table: MountTable<TmpFs> = MountTable::new();
    for i in 0..16u32 {
        assert_eq!(table.register(b"/m", TmpFs::new(i)), Ok(i));
    }
    assert_eq!(table.register(b"/m", TmpFs::new(16)), Err(()));
}

#[test]
fn boot_layout_and_root_population() {
    let mut vfs = init();
    assert_eq!(vfs.mounts.count(), 7);
    assert_eq!(vfs.mounts.find_mount_for_path(b"/proc/cpuinfo"), (1, 5));
    assert_eq!(vfs.mounts.find_mount_for_path(b"/mnt/fat32/README.TXT"), (6, 10));
    assert_eq!(vfs.mounts.find_mount_for_path(b"/mnt/ext2"), (5, 9));
    let images = EmbeddedImages {
        init: b"\x7fELF-init".to_vec(),
        sh: Vec::new(),
        ui: Vec::new(),
        busybox: b"\x7fELF-busybox".to_vec(),
        ld_musl: Vec::new(),
    };
    populate(&mut vfs, &images);
    assert_eq!(read_path(&mut vfs, b"/bin/init"), Ok(b"\x7fELF-init".to_vec()));
    assert_eq!(read_path(&mut vfs, b"/etc/hosts"), Ok(b"127.0.0.1 localhost\n".to_vec()));
    assert_eq!(read_path(&mut vfs, b"/etc/passwd"), Ok(b"root:x:0:0:root:/root:/bin/sh\n".to_vec()));
    assert_eq!(read_path(&mut vfs, b"/bin/busybox"), Ok(b"\x7fELF-busybox".to_vec()));
    // Every applet is a symlink to busybox ("sh" is one of them), followed
    // from /bin to the busybox image.
    assert_eq!(read_path(&mut vfs, b"/bin/ls"), Ok(b"\x7fELF-busybox".to_vec()));
    assert_eq!(read_path(&mut vfs, b"/bin/sh"), Ok(b"\x7fELF-busybox".to_vec()));
    assert_eq!(stat_path(&mut vfs, b"/bin/ls").unwrap().file_type, FileType::Regular);
    assert_eq!(read_path(&mut vfs, b"/bin/ui"), Err(FsError::NotFound));
    assert_eq!(stat_path(&mut vfs, b"/var/run").unwrap().file_type, FileType::Directory);
    assert_eq!(applets().len(), 12);
    assert_eq!(bin_path("cat"), b"/bin/cat".to_vec());
}

#[test]
fn shell_falls_back_to_init() {
    let mut vfs = init();
    let images = EmbeddedImages {
        init: b"INIT".to_vec(),
        sh: Vec::new(),
        ui: Vec::new(),
        busybox: Vec::new(),
        ld_musl: Vec::new(),
    };
    populate(&mut vfs, &images);
    assert_eq!(read_path(&mut vfs, b"/bin/sh"), Ok(b"INIT".to_vec()));
    assert_eq!(read_path(&mut vfs, b"/bin/init"), Ok(b"INIT".to_vec()));
}

#[test]
fn vfs_write_read_and_errors() {
    let mut vfs = init();
    assert_eq!(write_path(&mut vfs, b"/tmp/a.txt", b"hello", true), Ok(()));
    assert_eq!(read_path(&mut vfs, b"/tmp/a.txt"), Ok(b"hello".to_vec()));
    assert_eq!(write_path(&mut vfs, b"/tmp/missing", b"x", false), Err(FsError::NotFound));
    assert_eq!(read_path(&mut vfs, b""), Err(FsError::Invalid));
    assert_eq!(mkdir_path(&mut vfs, b"/tmp/d"), Ok(()));
    assert_eq!(mkdir_path(&mut vfs, b"/tmp/d"), Err(FsError::Exists));
    assert_eq!(mkdir_path(&mut vfs, b"/"), Err(FsError::Invalid));
    assert_eq!(symlink_path(&mut vfs, b"/tmp/link", b"/tmp/a.txt"), Ok(()));
    assert_eq!(read_path(&mut vfs, b"/tmp/link"), Ok(b"hello".to_vec()));
    assert_eq!(stat_path(&mut vfs, b"/tmp/d").unwrap().file_type, FileType::Directory);
    assert_eq!(stat_path(&mut vfs, b"/nowhere"), Err(FsError::NotFound));
    assert_eq!(stat_path(&mut vfs, b"/tmp/a.txt/x"), Err(FsError::NotDir));
    assert_eq!(
        read_path(&mut vfs, b"/proc/cpuinfo"),
        Ok(b"processor\t: 0\nvendor_id\t: TheoryOS\nmodel name\t: Theory CPU\n".to_vec())
    );
}

#[test]
fn stale_dentry_after_rewrite_reports_not_dir() {
    // A cached entry whose inode changed generation is looked up again in
    // the entry's own inode, not in its parent: a file rewritten after its
    // path was cached no longer resolves.
    let mut vfs = init();
    assert_eq!(write_path(&mut vfs, b"/tmp/a.txt", b"hello", true), Ok(()));
    assert_eq!(read_path(&mut vfs, b"/tmp/a.txt"), Ok(b"hello".to_vec()));
    assert_eq!(write_path(&mut vfs, b"/tmp/a.txt", b"hi", false), Ok(()));
    assert_eq!(read_path(&mut vfs, b"/tmp/a.txt"), Err(FsError::NotDir));
}

#[test]
fn every_boot_mount_is_reachable_by_path() {
    // Each filesystem carries the id of the table slot it is registered in,
    // so paths into sysfs, ext2 and FAT32 reach their files.
    let mut vfs = init();
    assert_eq!(read_path(&mut vfs, b"/sys/kernel"), Ok(b"Theory OS 0.1\n".to_vec()));
    assert_eq!(stat_path(&mut vfs, b"/sys").unwrap().file_type, FileType::Directory);
    assert_eq!(read_path(&mut vfs, b"/mnt/fat32/README.TXT"), Ok(b"Hello, FAT32!".to_vec()));
    // The ext2 root is reached: its "." entry is found, and its one
    // directory block is full.
    assert_eq!(stat_path(&mut vfs, b"/mnt/ext2/.").unwrap().file_type, FileType::Directory);
    assert_eq!(write_path(&mut vfs, b"/mnt/ext2/hello.txt", b"x", true), Err(FsError::NoSpace));
    for p in [&b"/proc"[..], b"/dev", b"/tmp", b"/mnt/ext2", b"/mnt/fat32"] {
        assert_eq!(stat_path(&mut vfs, p).unwrap().file_type, FileType::Directory);
    }
}

#[test]
fn lseek_targets() {
    assert_eq!(lseek_target(10, 100, 5, SEEK_SET), Some(5));
    assert_eq!(lseek_target(10, 100, -4, SEEK_CUR), Some(6));
    assert_eq!(lseek_target(10, 100, 0, SEEK_END), Some(100));
    assert_eq!(lseek_target(10, 100, 0, 7), None);
}

#[test]
fn fd_table_lifecycle() {
    let mut t = FdTable::new();
    t.init_stdio();
    assert_eq!(t.get(1), Some(FdEntry::ConsoleOut));
    let file = OpenFile { inode: InodeId::new(3, 2), offset: 0, flags: OpenFlags { bits: O_RDWR }, generation: 1 };
    assert_eq!(t.alloc_fd(FdEntry::Vfs(file)), Ok(3));
    assert_eq!(t.alloc_fd(FdEntry::Anon), Ok(4));
    if let Some(f) = t.get_vfs_mut(3) {
        f.offset = 42;
    }
    assert_eq!(t.get(3), Some(FdEntry::Vfs(OpenFile { offset: 42, ..file })));
    assert!(t.get_vfs_mut(4).is_none());
    assert_eq!(t.close(0), Err(()));
    assert_eq!(t.close(4), Ok(()));
    assert_eq!(t.close(4), Err(()));
    assert_eq!(t.alloc_fd(FdEntry::Anon), Ok(4));
    assert_eq!(t.dup2(3, 10), Ok(10));
    assert_eq!(t.get(10), t.get(3));
    assert_eq!(t.dup2(99, 11), Err(()));
    assert_eq!(t.set_fd_flags(10, FD_CLOEXEC), Ok(()));
    t.close_on_exec();
    assert_eq!(t.get(10), None);
    assert!(t.get(3).is_some());
    assert_eq!(t.get(999), None);
}

#[test]
fn errno_numbers() {
    assert_eq!(fs_err_to_errno(FsError::NotFound).code(), 2);
    assert_eq!(fs_err_to_errno(FsError::Exists).code(), 17);
    assert_eq!(fs_err_to_errno(FsError::NoSpace).code(), 28);
    assert_eq!(fs_err_to_errno(FsError::TooManyLinks).code(), 40);
    assert_eq!(fs_err_to_errno(FsError::NotSymlink).code(), 22);
}

#[test]
fn block_cache_reads_back_writes() {
    let mut dev = RamDisk::new(3 * BLOCK_SIZE as u64 - 100).unwrap();
    assert_eq!(dev.block_count(), 3);
    let mut cache = BufferCache::new();
    let data: Vec<u8> = (0..BLOCK_SIZE).map(|i| (i % 251) as u8).collect();
    let mut buf = vec![0u8; BLOCK_SIZE];
    assert_eq!(read_block(&mut cache, &dev, 0, 2, &mut buf), Ok(()));
    assert!(buf.iter().all(|b| *b == 0));
    assert_eq!(write_block(&mut cache, &mut dev, 0, 2, &data), Ok(()));
    assert_eq!(read_block(&mut cache, &dev, 0, 2, &mut buf), Ok(()));
    assert_eq!(buf, data);
    assert_eq!(read_block(&mut cache, &dev, 0, 3, &mut buf), Err(BlockError::OutOfRange));
    assert_eq!(write_block(&mut cache, &mut dev, 0, 7, &data), Err(BlockError::OutOfRange));
}

#[test]
fn ext2_format_and_root_directory() {
    let disk = RamDisk::new(1024 * 1024).unwrap();
    let mut fs = match Ext2Fs::format_and_mount(4, 0, disk) {
        Ok(f) => f,
        Err(_) => panic!("format failed"),
    };
    let root = root_of(&fs);
    assert_eq!(root, InodeId { mount: 4, ino: 2 });
    // The root directory's recorded size is a whole block, so there is no
    // room after it for another entry.
    assert_eq!(fs.create(root, b"file", FileType::Regular, InodeMode::default_file()), Err(FsError::NoSpace));
    let attr = fs.getattr(root).unwrap();
    assert_eq!(attr.file_type, FileType::Directory);
    assert_eq!(attr.size, 4096);
    assert_eq!(fs.getattr(InodeId { mount: 9, ino: 2 }), Err(FsError::NotFound));
    assert_eq!(fs.lookup(root, b"."), Ok(root));
    assert_eq!(fs.lookup(root, b"none"), Err(FsError::NotFound));
}

#[test]
fn fat32_format_and_lookup_readme() {
    let disk = RamDisk::new(1024 * 1024).unwrap();
    let fs = match Fat32Fs::format_and_mount(5, 1, disk) {
        Ok(f) => f,
        Err(_) => panic!("format failed"),
    };
    let root = root_of(&fs);
    assert!(fs.lookup(root, b"README.TXT").is_ok());
    assert_eq!(fs.fs_type(), "fat32");
}

#[test]
fn devfs_console_null_and_zero() {
    let mut fs = DevFs::new(2);
    let root = root_of(&fs);
    let console = fs.lookup(root, b"console").unwrap();
    assert_eq!(fs.write(console, 0, b"boot\n"), Ok(5));
    assert_eq!(fs.take_console_output(), b"boot\n".to_vec());
    assert_eq!(fs.take_console_output(), Vec::<u8>::new());
    let null = fs.lookup(root, b"null").unwrap();
    let mut buf = vec![7u8; 4];
    assert_eq!(fs.read(null, 0, &mut buf), Ok(0));
    let zero = fs.lookup(root, b"zero").unwrap();
    assert_eq!(fs.read(zero, 0, &mut buf), Ok(4));
    assert_eq!(buf, vec![0u8; 4]);
    assert_eq!(fs.create(root, b"new", FileType::Regular, InodeMode::default_file()), Err(FsError::AccessDenied));
}

#[test]
fn procfs_cpuinfo_and_self() {
    let mut fs = ProcFs::new(1);
    fs.set_snapshot(ProcSnapshot {
        current_pid: 42,
        total_frames: 1024,
        free_frames: 512,
        fb_line: Vec::new(),
        processes: Vec::new(),
    });
    assert_eq!(
        fs.generate_file(CPUINFO_INO),
        b"processor\t: 0\nvendor_id\t: TheoryOS\nmodel name\t: Theory CPU\n".to_vec()
    );
    let root = root_of(&fs);
    let me = fs.lookup(root, b"self").unwrap();
    let mut buf = vec![0u8; 8];
    assert_eq!(fs.read(me, 0, &mut buf), Ok(3));
    assert_eq!(&buf[..3], b"42\n");
}

#[test]
fn sysfs_kernel_file_and_directories() {
    let fs = SysFs::new(6);
    let root = root_of(&fs);
    let k = fs.lookup(root, b"kernel").unwrap();
    let attr = fs.getattr(k).unwrap();
    assert_eq!(attr.file_type, FileType::Regular);
    assert_eq!(attr.size, 14);
    let mut buf = vec![0u8; 32];
    assert_eq!(fs.read(k, 0, &mut buf), Ok(14));
    assert_eq!(&buf[..14], b"Theory OS 0.1\n");
    for name in [&b"class"[..], b"devices", b"module"] {
        let d = fs.lookup(root, name).unwrap();
        assert_eq!(fs.getattr(d).unwrap().file_type, FileType::Directory);
    }
    assert_eq!(fs.lookup(root, b"block"), Err(FsError::NotFound));
}

#[test]
fn open_flags_combine() {
    let a = OpenFlags::from_bits(1);
    let b = OpenFlags::from_bits(0x40);
    assert_eq!(a.union(b).bits(), 0x41);
    assert!(a.union(b).contains(b));
    assert!(!a.contains(b));
    let _ = (SEEK_SET, SEEK_CUR, SEEK_END);
}

#[test]
fn resolving_again_through_the_cache_gives_the_same_answer() {
    let mut vfs = init();
    assert_eq!(mkdir_path(&mut vfs, b"/tmp/d"), Ok(()));
    assert_eq!(mkdir_path(&mut vfs, b"/tmp/d/e"), Ok(()));
    let first = resolve_path(&vfs.mounts, &mut vfs.dentries, b"/tmp/d/e").unwrap();
    let again = resolve_path(&vfs.mounts, &mut vfs.dentries, b"/tmp//d/e/").unwrap();
    assert_eq!(first.inode, again.inode);
    assert_eq!(first.attr.file_type, FileType::Directory);
    assert_eq!(
        resolve_path(&vfs.mounts, &mut vfs.dentries, b"/tmp/d/nothing").map(|r| r.inode),
        Err(FsError::NotFound)
    );
    assert_eq!(resolve_path(&vfs.mounts, &mut vfs.dentries, b"").map(|r| r.inode), Err(FsError::Invalid));
    let root = resolve_path(&vfs.mounts, &mut vfs.dentries, b"/").unwrap();
    assert_eq!(root.attr.file_type, FileType::Directory);
    let (parent, name) = lookup_parent(&vfs.mounts, &mut vfs.dentries, b"/tmp/d/e").unwrap();
    assert_eq!(parent, resolve_path(&vfs.mounts, &mut vfs.dentries, b"/tmp/d").unwrap().inode);
    assert_eq!(name, b"e".to_vec());
    let (top, name) = lookup_parent(&vfs.mounts, &mut vfs.dentries, b"etc").unwrap();
    assert_eq!(top, root.inode);
    assert_eq!(name, b"etc".to_vec());
}

#[test]
fn a_followed_symlink_leads_on_to_the_rest_of_the_path() {
    // A symlink met on the way is replaced by its target, and the rest of
    // the path is walked from there; a final symlink is followed only when
    // asked for.
    let mut vfs = init();
    assert_eq!(mkdir_path(&mut vfs, b"/tmp/d"), Ok(()));
    assert_eq!(write_path(&mut vfs, b"/tmp/d/f", b"data", true), Ok(()));
    assert_eq!(symlink_path(&mut vfs, b"/tmp/up", b"/tmp/d"), Ok(()));
    let f = resolve_path(&vfs.mounts, &mut vfs.dentries, b"/tmp/d/f").unwrap();
    let through = resolve_path(&vfs.mounts, &mut vfs.dentries, b"/tmp/up/f").unwrap();
    assert_eq!(through.inode, f.inode);
    let through = resolve_path_at(&vfs.mounts, &mut vfs.dentries, b"/tmp/up/f", false).unwrap();
    assert_eq!(through.inode, f.inode);
    assert_eq!(read_path(&mut vfs, b"/tmp/up/f"), Ok(b"data".to_vec()));
    assert_eq!(
        resolve_path(&vfs.mounts, &mut vfs.dentries, b"/tmp/up/missing").map(|r| r.inode),
        Err(FsError::NotFound)
    );
    // The last component: kept as a link without `follow_final`, followed with it.
    let link = resolve_path_at(&vfs.mounts, &mut vfs.dentries, b"/tmp/up", false).unwrap();
    assert_eq!(link.attr.file_type, FileType::Symlink);
    let dir = resolve_path_at(&vfs.mounts, &mut vfs.dentries, b"/tmp/up", true).unwrap();
    let d = resolve_path(&vfs.mounts, &mut vfs.dentries, b"/tmp/d").unwrap();
    assert_eq!(dir.inode, d.inode);
    // A relative target is resolved from the directory holding the link.
    assert_eq!(symlink_path(&mut vfs, b"/tmp/d/g", b"f"), Ok(()));
    assert_eq!(read_path(&mut vfs, b"/tmp/d/g"), Ok(b"data".to_vec()));
    assert_eq!(read_path(&mut vfs, b"/tmp/up/g"), Ok(b"data".to_vec()));
}

#[test]
fn symlink_cycles_end_in_too_many_links() {
    let mut vfs = init();
    assert_eq!(symlink_path(&mut vfs, b"/tmp/a", b"/tmp/b"), Ok(()));
    assert_eq!(symlink_path(&mut vfs, b"/tmp/b", b"/tmp/a"), Ok(()));
    assert_eq!(
        resolve_path(&vfs.mounts, &mut vfs.dentries, b"/tmp/a").map(|r| r.inode),
        Err(FsError::TooManyLinks)
    );
    assert_eq!(
        resolve_path(&vfs.mounts, &mut vfs.dentries, b"/tmp/a/x").map(|r| r.inode),
        Err(FsError::TooManyLinks)
    );
    // Without `follow_final` the link itself is found.
    let a = resolve_path_at(&vfs.mounts, &mut vfs.dentries, b"/tmp/a", false).unwrap();
    assert_eq!(a.attr.file_type, FileType::Symlink);
    // Eight links deep is still followed.
    let mut prev = b"/tmp/t0".to_vec();
    assert_eq!(write_path(&mut vfs, &prev, b"end", true), Ok(()));
    for i in 1..=8u8 {
        let name = format!("/tmp/t{}", i).into_bytes();
        assert_eq!(symlink_path(&mut vfs, &name, &prev), Ok(()));
        prev = name;
    }
    assert_eq!(read_path(&mut vfs, b"/tmp/t8"), Ok(b"end".to_vec()));
    assert_eq!(symlink_path(&mut vfs, b"/tmp/t9", b"/tmp/t8"), Ok(()));
    assert_eq!(read_path(&mut vfs, b"/tmp/t9"), Err(FsError::TooManyLinks));
}

#[test]
fn ext2_write_fills_a_fresh_block_and_grows_the_size() {
    // The root directory has one block; a write into its second one
    // gives the unallocated pointer a block and extends the size.
    let disk = RamDisk::new(1024 * 1024).unwrap();
    let mut fs = match Ext2Fs::format_and_mount(4, 0, disk) {
        Ok(f) => f,
        Err(_) => panic!("format failed"),
    };
    let root = root_of(&fs);
    assert_eq!(fs.write(root, 4096, b"abc"), Ok(3));
    assert_eq!(fs.getattr(root).unwrap().size, 4099);
    let mut buf = vec![0u8; 3];
    assert_eq!(fs.read(root, 4096, &mut buf), Ok(3));
    assert_eq!(buf, b"abc".to_vec());
    // The twelfth block is the last a file reaches.
    assert_eq!(fs.write(root, 12 * 4096, b"x"), Err(FsError::NoSpace));
}

#[test]
fn read_file_counts_at_most_the_buffer_and_advances() {
    let mut vfs = init();
    assert_eq!(write_path(&mut vfs, b"/tmp/r.txt", b"abcdefgh", true), Ok(()));
    let mut file = open_path(&mut vfs, b"/tmp/r.txt", OpenFlags { bits: O_RDONLY }).unwrap();
    let mut buf = vec![0u8; 3];
    assert_eq!(read_file(&vfs, &mut file, &mut buf), Ok(3));
    assert_eq!(buf, b"abc".to_vec());
    assert_eq!(file.offset, 3);
    let mut big = vec![0u8; 16];
    assert_eq!(read_file(&vfs, &mut file, &mut big), Ok(5));
    assert_eq!(&big[..5], b"defgh");
    assert_eq!(file.offset, 8);
    assert_eq!(read_file(&vfs, &mut file, &mut big), Ok(0));
}
