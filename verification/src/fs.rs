//! Filesystems: the VFS layer, file descriptors and block devices, and the
//! mount layout made at boot.

pub mod block;
pub mod devfs;
pub mod errno;
pub mod ext2;
pub mod fat32;
pub mod fd;
pub mod names;
pub mod procfs;
pub mod rootfs;
pub mod sysfs;
pub mod tmpfs;
pub mod vfs;

use vstd::prelude::*;
use vstd::string::StringSliceAdditionalSpecFns;
use crate::fs::block::BlockDevice;
use crate::fs::block::ramdisk::{RamDisk, RAMDISK_BYTES};
use crate::fs::devfs::DevFs;
use crate::fs::ext2::{create_effect, truncate_effect, write_effect, Ext2Fs, Ext2Super};
use crate::fs::fat32::Fat32Fs;
use crate::fs::procfs::ProcFs;
use crate::fs::sysfs::SysFs;
use crate::fs::tmpfs::{
    initial_nodes, spec_create, spec_root_dirs, spec_symlink, spec_truncate, spec_unlink, spec_write, TmpFs,
};
use crate::fs::vfs::inode::{FileType, InodeAttr, InodeId, InodeMode};
use crate::fs::vfs::dentry::Dentry;
use crate::fs::vfs::mount::{covers, MountTable};
use crate::fs::vfs::ops::Vfs;
use crate::fs::vfs::path::{lemma_mount_path_resolves_to_root, path_lookup, unshadowed};
use crate::fs::vfs::superblock::{DirEntry, FileSystem, FsError};

verus! {

/// One mounted filesystem of any of the kinds the kernel knows; every
/// operation goes to the filesystem inside.
pub enum AnyFs<D> {
    Tmp(TmpFs),
    Proc(ProcFs),
    Dev(DevFs),
    Sys(SysFs),
    Ext2(Ext2Fs<D>),
    Fat32(Fat32Fs<D>),
}

impl<D: BlockDevice> FileSystem for AnyFs<D> {
    open spec fn root_spec(&self) -> InodeId {
        match self {
            AnyFs::Tmp(f) => f.root_spec(),
            AnyFs::Proc(f) => f.root_spec(),
            AnyFs::Dev(f) => f.root_spec(),
            AnyFs::Sys(f) => f.root_spec(),
            AnyFs::Ext2(f) => f.root_spec(),
            AnyFs::Fat32(f) => f.root_spec(),
        }
    }

    open spec fn attr_of(&self, inode: InodeId) -> Result<InodeAttr, FsError> {
        match self {
            AnyFs::Tmp(f) => f.attr_of(inode),
            AnyFs::Proc(f) => f.attr_of(inode),
            AnyFs::Dev(f) => f.attr_of(inode),
            AnyFs::Sys(f) => f.attr_of(inode),
            AnyFs::Ext2(f) => f.attr_of(inode),
            AnyFs::Fat32(f) => f.attr_of(inode),
        }
    }

    open spec fn child_of(&self, dir: InodeId, name: Seq<u8>) -> Result<InodeId, FsError> {
        match self {
            AnyFs::Tmp(f) => f.child_of(dir, name),
            AnyFs::Proc(f) => f.child_of(dir, name),
            AnyFs::Dev(f) => f.child_of(dir, name),
            AnyFs::Sys(f) => f.child_of(dir, name),
            AnyFs::Ext2(f) => f.child_of(dir, name),
            AnyFs::Fat32(f) => f.child_of(dir, name),
        }
    }

    open spec fn link_of(&self, inode: InodeId) -> Result<Seq<u8>, FsError> {
        match self {
            AnyFs::Tmp(f) => f.link_of(inode),
            AnyFs::Proc(f) => f.link_of(inode),
            AnyFs::Dev(f) => f.link_of(inode),
            AnyFs::Sys(f) => f.link_of(inode),
            AnyFs::Ext2(f) => f.link_of(inode),
            AnyFs::Fat32(f) => f.link_of(inode),
        }
    }

    fn fs_type(&self) -> (r: &'static str)
        ensures
            r@ == match self {
                AnyFs::Tmp(_) => "tmpfs"@,
                AnyFs::Proc(_) => "procfs"@,
                AnyFs::Dev(_) => "devfs"@,
                AnyFs::Sys(_) => "sysfs"@,
                AnyFs::Ext2(_) => "ext2"@,
                AnyFs::Fat32(_) => "fat32"@,
            },
    {
        match self {
            AnyFs::Tmp(f) => f.fs_type(),
            AnyFs::Proc(f) => f.fs_type(),
            AnyFs::Dev(f) => f.fs_type(),
            AnyFs::Sys(f) => f.fs_type(),
            AnyFs::Ext2(f) => f.fs_type(),
            AnyFs::Fat32(f) => f.fs_type(),
        }
    }

    fn root(&self) -> (r: InodeId) {
        match self {
            AnyFs::Tmp(f) => f.root(),
            AnyFs::Proc(f) => f.root(),
            AnyFs::Dev(f) => f.root(),
            AnyFs::Sys(f) => f.root(),
            AnyFs::Ext2(f) => f.root(),
            AnyFs::Fat32(f) => f.root(),
        }
    }

    fn getattr(&self, inode: InodeId) -> (r: Result<InodeAttr, FsError>) {
        match self {
            AnyFs::Tmp(f) => f.getattr(inode),
            AnyFs::Proc(f) => f.getattr(inode),
            AnyFs::Dev(f) => f.getattr(inode),
            AnyFs::Sys(f) => f.getattr(inode),
            AnyFs::Ext2(f) => f.getattr(inode),
            AnyFs::Fat32(f) => f.getattr(inode),
        }
    }

    fn lookup(&self, dir: InodeId, name: &[u8]) -> (r: Result<InodeId, FsError>) {
        match self {
            AnyFs::Tmp(f) => f.lookup(dir, name),
            AnyFs::Proc(f) => f.lookup(dir, name),
            AnyFs::Dev(f) => f.lookup(dir, name),
            AnyFs::Sys(f) => f.lookup(dir, name),
            AnyFs::Ext2(f) => f.lookup(dir, name),
            AnyFs::Fat32(f) => f.lookup(dir, name),
        }
    }

    open spec fn create_done(&self, after: Self, dir: InodeId, name: Seq<u8>, file_type: FileType, mode: InodeMode, r: Result<InodeId, FsError>) -> bool {
        match *self {
            AnyFs::Tmp(f) => after matches AnyFs::Tmp(g) && f.create_done(g, dir, name, file_type, mode, r),
            AnyFs::Proc(f) => after matches AnyFs::Proc(g) && f.create_done(g, dir, name, file_type, mode, r),
            AnyFs::Dev(f) => after matches AnyFs::Dev(g) && f.create_done(g, dir, name, file_type, mode, r),
            AnyFs::Sys(f) => after matches AnyFs::Sys(g) && f.create_done(g, dir, name, file_type, mode, r),
            AnyFs::Ext2(f) => after matches AnyFs::Ext2(g) && f.create_done(g, dir, name, file_type, mode, r),
            AnyFs::Fat32(f) => after matches AnyFs::Fat32(g) && f.create_done(g, dir, name, file_type, mode, r),
        }
    }

    fn create(&mut self, dir: InodeId, name: &[u8], file_type: FileType, mode: InodeMode) -> (r: Result<InodeId, FsError>)
    {
        match self {
            AnyFs::Tmp(f) => f.create(dir, name, file_type, mode),
            AnyFs::Proc(f) => f.create(dir, name, file_type, mode),
            AnyFs::Dev(f) => f.create(dir, name, file_type, mode),
            AnyFs::Sys(f) => f.create(dir, name, file_type, mode),
            AnyFs::Ext2(f) => f.create(dir, name, file_type, mode),
            AnyFs::Fat32(f) => f.create(dir, name, file_type, mode),
        }
    }

    open spec fn mkdir_done(&self, after: Self, dir: InodeId, name: Seq<u8>, mode: InodeMode, r: Result<InodeId, FsError>) -> bool {
        match *self {
            AnyFs::Tmp(f) => after matches AnyFs::Tmp(g) && f.mkdir_done(g, dir, name, mode, r),
            AnyFs::Proc(f) => after matches AnyFs::Proc(g) && f.mkdir_done(g, dir, name, mode, r),
            AnyFs::Dev(f) => after matches AnyFs::Dev(g) && f.mkdir_done(g, dir, name, mode, r),
            AnyFs::Sys(f) => after matches AnyFs::Sys(g) && f.mkdir_done(g, dir, name, mode, r),
            AnyFs::Ext2(f) => after matches AnyFs::Ext2(g) && f.mkdir_done(g, dir, name, mode, r),
            AnyFs::Fat32(f) => after matches AnyFs::Fat32(g) && f.mkdir_done(g, dir, name, mode, r),
        }
    }

    fn mkdir(&mut self, dir: InodeId, name: &[u8], mode: InodeMode) -> (r: Result<InodeId, FsError>)
    {
        match self {
            AnyFs::Tmp(f) => f.mkdir(dir, name, mode),
            AnyFs::Proc(f) => f.mkdir(dir, name, mode),
            AnyFs::Dev(f) => f.mkdir(dir, name, mode),
            AnyFs::Sys(f) => f.mkdir(dir, name, mode),
            AnyFs::Ext2(f) => f.mkdir(dir, name, mode),
            AnyFs::Fat32(f) => f.mkdir(dir, name, mode),
        }
    }

    open spec fn unlink_done(&self, after: Self, dir: InodeId, name: Seq<u8>, r: Result<(), FsError>) -> bool {
        match *self {
            AnyFs::Tmp(f) => after matches AnyFs::Tmp(g) && f.unlink_done(g, dir, name, r),
            AnyFs::Proc(f) => after matches AnyFs::Proc(g) && f.unlink_done(g, dir, name, r),
            AnyFs::Dev(f) => after matches AnyFs::Dev(g) && f.unlink_done(g, dir, name, r),
            AnyFs::Sys(f) => after matches AnyFs::Sys(g) && f.unlink_done(g, dir, name, r),
            AnyFs::Ext2(f) => after matches AnyFs::Ext2(g) && f.unlink_done(g, dir, name, r),
            AnyFs::Fat32(f) => after matches AnyFs::Fat32(g) && f.unlink_done(g, dir, name, r),
        }
    }

    fn unlink(&mut self, dir: InodeId, name: &[u8]) -> (r: Result<(), FsError>)
    {
        match self {
            AnyFs::Tmp(f) => f.unlink(dir, name),
            AnyFs::Proc(f) => f.unlink(dir, name),
            AnyFs::Dev(f) => f.unlink(dir, name),
            AnyFs::Sys(f) => f.unlink(dir, name),
            AnyFs::Ext2(f) => f.unlink(dir, name),
            AnyFs::Fat32(f) => f.unlink(dir, name),
        }
    }

    open spec fn read_result(&self, inode: InodeId, offset: u64, buf: Seq<u8>) -> (Result<usize, FsError>, Seq<u8>) {
        match self {
            AnyFs::Tmp(f) => f.read_result(inode, offset, buf),
            AnyFs::Proc(f) => f.read_result(inode, offset, buf),
            AnyFs::Dev(f) => f.read_result(inode, offset, buf),
            AnyFs::Sys(f) => f.read_result(inode, offset, buf),
            AnyFs::Ext2(f) => f.read_result(inode, offset, buf),
            AnyFs::Fat32(f) => f.read_result(inode, offset, buf),
        }
    }

    fn read(&self, inode: InodeId, offset: u64, buf: &mut Vec<u8>) -> (r: Result<usize, FsError>) {
        match self {
            AnyFs::Tmp(f) => f.read(inode, offset, buf),
            AnyFs::Proc(f) => f.read(inode, offset, buf),
            AnyFs::Dev(f) => f.read(inode, offset, buf),
            AnyFs::Sys(f) => f.read(inode, offset, buf),
            AnyFs::Ext2(f) => f.read(inode, offset, buf),
            AnyFs::Fat32(f) => f.read(inode, offset, buf),
        }
    }

    open spec fn write_done(&self, after: Self, inode: InodeId, offset: u64, buf: Seq<u8>, r: Result<usize, FsError>) -> bool {
        match *self {
            AnyFs::Tmp(f) => after matches AnyFs::Tmp(g) && f.write_done(g, inode, offset, buf, r),
            AnyFs::Proc(f) => after matches AnyFs::Proc(g) && f.write_done(g, inode, offset, buf, r),
            AnyFs::Dev(f) => after matches AnyFs::Dev(g) && f.write_done(g, inode, offset, buf, r),
            AnyFs::Sys(f) => after matches AnyFs::Sys(g) && f.write_done(g, inode, offset, buf, r),
            AnyFs::Ext2(f) => after matches AnyFs::Ext2(g) && f.write_done(g, inode, offset, buf, r),
            AnyFs::Fat32(f) => after matches AnyFs::Fat32(g) && f.write_done(g, inode, offset, buf, r),
        }
    }

    fn write(&mut self, inode: InodeId, offset: u64, buf: &[u8]) -> (r: Result<usize, FsError>)
    {
        match self {
            AnyFs::Tmp(f) => f.write(inode, offset, buf),
            AnyFs::Proc(f) => f.write(inode, offset, buf),
            AnyFs::Dev(f) => f.write(inode, offset, buf),
            AnyFs::Sys(f) => f.write(inode, offset, buf),
            AnyFs::Ext2(f) => f.write(inode, offset, buf),
            AnyFs::Fat32(f) => f.write(inode, offset, buf),
        }
    }

    open spec fn readdir_result(&self, dir: InodeId, index: u64) -> Result<Option<(Seq<u8>, InodeId, FileType)>, FsError> {
        match self {
            AnyFs::Tmp(f) => f.readdir_result(dir, index),
            AnyFs::Proc(f) => f.readdir_result(dir, index),
            AnyFs::Dev(f) => f.readdir_result(dir, index),
            AnyFs::Sys(f) => f.readdir_result(dir, index),
            AnyFs::Ext2(f) => f.readdir_result(dir, index),
            AnyFs::Fat32(f) => f.readdir_result(dir, index),
        }
    }

    fn readdir(&self, dir: InodeId, index: u64, entry: &mut DirEntry) -> (r: Result<bool, FsError>) {
        match self {
            AnyFs::Tmp(f) => f.readdir(dir, index, entry),
            AnyFs::Proc(f) => f.readdir(dir, index, entry),
            AnyFs::Dev(f) => f.readdir(dir, index, entry),
            AnyFs::Sys(f) => f.readdir(dir, index, entry),
            AnyFs::Ext2(f) => f.readdir(dir, index, entry),
            AnyFs::Fat32(f) => f.readdir(dir, index, entry),
        }
    }

    fn readlink(&self, inode: InodeId, buf: &mut Vec<u8>) -> (r: Result<usize, FsError>) {
        match self {
            AnyFs::Tmp(f) => f.readlink(inode, buf),
            AnyFs::Proc(f) => f.readlink(inode, buf),
            AnyFs::Dev(f) => f.readlink(inode, buf),
            AnyFs::Sys(f) => f.readlink(inode, buf),
            AnyFs::Ext2(f) => f.readlink(inode, buf),
            AnyFs::Fat32(f) => f.readlink(inode, buf),
        }
    }

    open spec fn symlink_done(&self, after: Self, dir: InodeId, name: Seq<u8>, target: Seq<u8>, mode: InodeMode, r: Result<InodeId, FsError>) -> bool {
        match *self {
            AnyFs::Tmp(f) => after matches AnyFs::Tmp(g) && f.symlink_done(g, dir, name, target, mode, r),
            AnyFs::Proc(f) => after matches AnyFs::Proc(g) && f.symlink_done(g, dir, name, target, mode, r),
            AnyFs::Dev(f) => after matches AnyFs::Dev(g) && f.symlink_done(g, dir, name, target, mode, r),
            AnyFs::Sys(f) => after matches AnyFs::Sys(g) && f.symlink_done(g, dir, name, target, mode, r),
            AnyFs::Ext2(f) => after matches AnyFs::Ext2(g) && f.symlink_done(g, dir, name, target, mode, r),
            AnyFs::Fat32(f) => after matches AnyFs::Fat32(g) && f.symlink_done(g, dir, name, target, mode, r),
        }
    }

    fn symlink(&mut self, dir: InodeId, name: &[u8], target: &[u8], mode: InodeMode) -> (r: Result<InodeId, FsError>)
    {
        match self {
            AnyFs::Tmp(f) => f.symlink(dir, name, target, mode),
            AnyFs::Proc(f) => f.symlink(dir, name, target, mode),
            AnyFs::Dev(f) => f.symlink(dir, name, target, mode),
            AnyFs::Sys(f) => f.symlink(dir, name, target, mode),
            AnyFs::Ext2(f) => f.symlink(dir, name, target, mode),
            AnyFs::Fat32(f) => f.symlink(dir, name, target, mode),
        }
    }

    open spec fn truncate_done(&self, after: Self, inode: InodeId, size: u64, r: Result<(), FsError>) -> bool {
        match *self {
            AnyFs::Tmp(f) => after matches AnyFs::Tmp(g) && f.truncate_done(g, inode, size, r),
            AnyFs::Proc(f) => after matches AnyFs::Proc(g) && f.truncate_done(g, inode, size, r),
            AnyFs::Dev(f) => after matches AnyFs::Dev(g) && f.truncate_done(g, inode, size, r),
            AnyFs::Sys(f) => after matches AnyFs::Sys(g) && f.truncate_done(g, inode, size, r),
            AnyFs::Ext2(f) => after matches AnyFs::Ext2(g) && f.truncate_done(g, inode, size, r),
            AnyFs::Fat32(f) => after matches AnyFs::Fat32(g) && f.truncate_done(g, inode, size, r),
        }
    }

    fn truncate(&mut self, inode: InodeId, size: u64) -> (r: Result<(), FsError>)
    {
        match self {
            AnyFs::Tmp(f) => f.truncate(inode, size),
            AnyFs::Proc(f) => f.truncate(inode, size),
            AnyFs::Dev(f) => f.truncate(inode, size),
            AnyFs::Sys(f) => f.truncate(inode, size),
            AnyFs::Ext2(f) => f.truncate(inode, size),
            AnyFs::Fat32(f) => f.truncate(inode, size),
        }
    }
}

/// The directories made in the root filesystem at boot.
pub open spec fn root_dir_names() -> Seq<Seq<u8>> {
    seq!["proc".spec_bytes(), "dev".spec_bytes(), "tmp".spec_bytes(), "mnt".spec_bytes(),
        "bin".spec_bytes(), "lib".spec_bytes(), "etc".spec_bytes(), "root".spec_bytes(),
        "home".spec_bytes(), "var".spec_bytes(), "sys".spec_bytes()]
}

/// The bytes of `/proc`.
pub open spec fn proc_mount_path() -> Seq<u8> {
    seq![0x2fu8, 0x70, 0x72, 0x6f, 0x63]
}

/// The bytes of `/dev`.
pub open spec fn dev_mount_path() -> Seq<u8> {
    seq![0x2fu8, 0x64, 0x65, 0x76]
}

/// The bytes of `/tmp`.
pub open spec fn tmp_mount_path() -> Seq<u8> {
    seq![0x2fu8, 0x74, 0x6d, 0x70]
}

/// The bytes of `/sys`.
pub open spec fn sys_mount_path() -> Seq<u8> {
    seq![0x2fu8, 0x73, 0x79, 0x73]
}

/// The bytes of `/mnt/ext2`.
pub open spec fn ext2_mount_path() -> Seq<u8> {
    seq![0x2fu8, 0x6d, 0x6e, 0x74, 0x2f, 0x65, 0x78, 0x74, 0x32]
}

/// The bytes of `/mnt/fat32`.
pub open spec fn fat32_mount_path() -> Seq<u8> {
    seq![0x2fu8, 0x6d, 0x6e, 0x74, 0x2f, 0x66, 0x61, 0x74, 0x33, 0x32]
}

proof fn lemma_second_byte_differs(p: Seq<u8>, q: Seq<u8>)
    requires
        p.len() == q.len(),
        p.len() >= 2,
        p[1] != q[1],
    ensures
        !covers(p, q),
{
    if covers(p, q) {
        assert(q.subrange(0, p.len() as int)[1] == q[1]);
    }
}

/// In the boot mount table each mount but the root tmpfs is reached by its
/// own path: no other mount path covers it as far.
proof fn lemma_boot_mounts_unshadowed(m: MountTable<AnyFs<RamDisk>>)
    requires
        m.wf(),
        m.entries().len() == 7,
        m.entries()[0].path@ == Seq::<u8>::empty(),
        m.entries()[1].path@ == proc_mount_path(),
        m.entries()[2].path@ == dev_mount_path(),
        m.entries()[3].path@ == tmp_mount_path(),
        m.entries()[4].path@ == sys_mount_path(),
        m.entries()[5].path@ == ext2_mount_path(),
        m.entries()[6].path@ == fat32_mount_path(),
    ensures
        forall|k: int| 1 <= k < 7 ==> unshadowed(m, k),
{
    lemma_second_byte_differs(dev_mount_path(), tmp_mount_path());
    lemma_second_byte_differs(tmp_mount_path(), dev_mount_path());
    lemma_second_byte_differs(dev_mount_path(), sys_mount_path());
    lemma_second_byte_differs(sys_mount_path(), dev_mount_path());
    lemma_second_byte_differs(tmp_mount_path(), sys_mount_path());
    lemma_second_byte_differs(sys_mount_path(), tmp_mount_path());
    let e = m.entries();
    assert forall|k: int| 1 <= k < 7 implies unshadowed(m, k) by {
        assert(e[k].path@.len() > 0 && e[k].path@[0] == 0x2fu8);
        assert forall|j: int| k < j < e.len() implies (#[trigger] e[j]).path@.len() > 0 by {}
        assert forall|j: int| 0 <= j < e.len() && j != k && (#[trigger] e[j]).path@.len() > 0
            && covers(e[j].path@, e[k].path@) implies e[j].path@.len() < e[k].path@.len() by {}
    }
}

/// The boot layout's `/proc`, `/dev`, `/tmp` and `/sys` resolve, through any
/// cache, to the roots of their mounts, which are directories: this holds of
/// any table of seven mounts where mounts 1 to 6 are each reached by their
/// own path, each root names its mount and roots 1 to 4 are directories,
/// which is what `init` makes.
pub proof fn lemma_boot_dirs_resolve(m: MountTable<AnyFs<RamDisk>>, slots: Seq<Option<Dentry>>)
    requires
        m.wf(),
        m.entries().len() == 7,
        forall|k: int| 1 <= k < 7 ==> unshadowed(m, k),
        forall|k: int| 0 <= k < 7 ==> (#[trigger] m.entries()[k]).fs.root_spec().mount == k,
        forall|k: int| 1 <= k < 5 ==> ((#[trigger] m.entries()[k]).fs.attr_of(m.entries()[k].fs.root_spec()) matches Ok(a)
            && a.file_type == FileType::Directory),
    ensures
        forall|k: int| 1 <= k < 5 ==> (path_lookup(m, slots, (#[trigger] m.entries()[k]).path@, true).0 matches Ok(res)
            && res.inode == m.entries()[k].fs.root_spec() && res.attr.file_type == FileType::Directory),
{
    assert forall|k: int| 1 <= k < 5 implies (path_lookup(m, slots, (#[trigger] m.entries()[k]).path@, true).0 matches Ok(res)
        && res.inode == m.entries()[k].fs.root_spec() && res.attr.file_type == FileType::Directory) by {
        lemma_mount_path_resolves_to_root(m, slots, k, true);
    }
}

/// The mount table made at boot: the root tmpfs (holding the directories of
/// `root_dir_names`) at "", procfs at "/proc", devfs at "/dev", a second
/// tmpfs at "/tmp", sysfs at "/sys"; then ext2 at "/mnt/ext2" on the first
/// RAM disk and FAT32 at "/mnt/fat32" on the second. Each filesystem carries
/// the id of the table slot it is registered in, so its inodes name it.
pub fn init() -> (r: Vfs<AnyFs<RamDisk>>)
    ensures
        r.wf(),
        ({
            let e = r.mounts.entries();
            &&& e.len() == 7
            &&& e[0].path@ == Seq::<u8>::empty()
            &&& (e[0].fs matches AnyFs::Tmp(t) && t.mount() == 0
                && t.nodes() == spec_root_dirs(initial_nodes(), 0, root_dir_names()))
            &&& e[1].path@ == proc_mount_path()
            &&& (e[1].fs matches AnyFs::Proc(p) && p.mount() == 1)
            &&& e[2].path@ == dev_mount_path()
            &&& (e[2].fs matches AnyFs::Dev(d) && d.mount() == 2)
            &&& e[3].path@ == tmp_mount_path()
            &&& (e[3].fs matches AnyFs::Tmp(t) && t.mount() == 3 && t.nodes() == initial_nodes())
            &&& e[4].path@ == sys_mount_path()
            &&& (e[4].fs matches AnyFs::Sys(s) && s.mount() == 4)
            &&& e[5].path@ == ext2_mount_path()
            &&& (e[5].fs matches AnyFs::Ext2(x) && x.mount() == 5)
            &&& e[6].path@ == fat32_mount_path()
            &&& (e[6].fs matches AnyFs::Fat32(x) && x.mount() == 6)
            &&& forall|k: int| 0 <= k < 7 ==> (#[trigger] e[k]).fs.root_spec().mount == k
            &&& forall|k: int| 1 <= k < 7 ==> unshadowed(r.mounts, k)
            &&& forall|k: int| 1 <= k < 5 ==> ((#[trigger] e[k]).fs.attr_of(e[k].fs.root_spec()) matches Ok(a)
                && a.file_type == FileType::Directory)
        }),
{
    let mut vfs: Vfs<AnyFs<RamDisk>> = Vfs::new();
    let root = root_tmpfs();
    let _ = vfs.mounts.register(Vec::<u8>::new().as_slice(), AnyFs::Tmp(root));
    assert(vfs.mounts.entries()[0].path@ =~= Seq::<u8>::empty());
    let _ = vfs.mounts.register(vec![0x2fu8, 0x70, 0x72, 0x6f, 0x63].as_slice(), AnyFs::Proc(ProcFs::new(1)));
    assert(vfs.mounts.entries()[1].path@ =~= proc_mount_path());
    assert(vfs.mounts.entries()[0] == vfs.mounts.entries().subrange(0, 1)[0]);
    let _ = vfs.mounts.register(vec![0x2fu8, 0x64, 0x65, 0x76].as_slice(), AnyFs::Dev(DevFs::new(2)));
    assert(vfs.mounts.entries()[2].path@ =~= dev_mount_path());
    assert(vfs.mounts.entries()[0] == vfs.mounts.entries().subrange(0, 2)[0]);
    assert(vfs.mounts.entries()[1] == vfs.mounts.entries().subrange(0, 2)[1]);
    let _ = vfs.mounts.register(vec![0x2fu8, 0x74, 0x6d, 0x70].as_slice(), AnyFs::Tmp(TmpFs::new(3)));
    assert(vfs.mounts.entries()[3].path@ =~= tmp_mount_path());
    assert(vfs.mounts.entries()[0] == vfs.mounts.entries().subrange(0, 3)[0]);
    assert(vfs.mounts.entries()[1] == vfs.mounts.entries().subrange(0, 3)[1]);
    assert(vfs.mounts.entries()[2] == vfs.mounts.entries().subrange(0, 3)[2]);
    let _ = vfs.mounts.register(vec![0x2fu8, 0x73, 0x79, 0x73].as_slice(), AnyFs::Sys(SysFs::new(4)));
    assert(vfs.mounts.entries()[4].path@ =~= sys_mount_path());
    assert(vfs.mounts.entries()[0] == vfs.mounts.entries().subrange(0, 4)[0]);
    assert(vfs.mounts.entries()[1] == vfs.mounts.entries().subrange(0, 4)[1]);
    assert(vfs.mounts.entries()[2] == vfs.mounts.entries().subrange(0, 4)[2]);
    assert(vfs.mounts.entries()[3] == vfs.mounts.entries().subrange(0, 4)[3]);
    let ghost first = vfs.mounts.entries();
    mount_disks(&mut vfs);
    assert forall|i: int| 0 <= i < 5 implies vfs.mounts.entries()[i] == first[i] by {
        assert(vfs.mounts.entries().subrange(0, 5)[i] == vfs.mounts.entries()[i]);
    }
    proof {
        lemma_boot_mounts_unshadowed(vfs.mounts);
    }
    vfs
}

/// The root tmpfs (mount 0) with the boot directories made in it.
fn root_tmpfs() -> (r: TmpFs)
    ensures
        r.mount() == 0,
        r.nodes() == spec_root_dirs(initial_nodes(), 0, root_dir_names()),
{
    let mut root = TmpFs::new(0);
    let mut dirs: Vec<&[u8]> = Vec::new();
    dirs.push("proc".as_bytes());
    dirs.push("dev".as_bytes());
    dirs.push("tmp".as_bytes());
    dirs.push("mnt".as_bytes());
    dirs.push("bin".as_bytes());
    dirs.push("lib".as_bytes());
    dirs.push("etc".as_bytes());
    dirs.push("root".as_bytes());
    dirs.push("home".as_bytes());
    dirs.push("var".as_bytes());
    dirs.push("sys".as_bytes());
    root.with_root_dirs(dirs.as_slice());
    proof {
        assert(dirs@.map_values(|d: &[u8]| d@) =~= root_dir_names());
    }
    root
}

/// Formats the two RAM disks as ext2 (mount 5, device 0) and FAT32 (mount 6,
/// device 1) and mounts them at "/mnt/ext2" and "/mnt/fat32".
fn mount_disks(vfs: &mut Vfs<AnyFs<RamDisk>>)
    requires
        old(vfs).wf(),
        old(vfs).mounts.entries().len() == 5,
    ensures
        final(vfs).wf(),
        final(vfs).mounts.entries().subrange(0, 5) == old(vfs).mounts.entries(),
        final(vfs).mounts.entries().len() == 7,
        final(vfs).mounts.entries()[5].path@ == ext2_mount_path(),
        final(vfs).mounts.entries()[5].fs matches AnyFs::Ext2(x) && x.mount() == 5,
        final(vfs).mounts.entries()[6].path@ == fat32_mount_path(),
        final(vfs).mounts.entries()[6].fs matches AnyFs::Fat32(x) && x.mount() == 6,
{
    let ghost start = vfs.mounts.entries();
    if let Some(disk) = RamDisk::new(RAMDISK_BYTES) {
        if let Ok(ext2) = Ext2Fs::format_and_mount(5, 0, disk) {
            let _ = vfs.mounts.register(vec![0x2fu8, 0x6d, 0x6e, 0x74, 0x2f, 0x65, 0x78, 0x74, 0x32].as_slice(), AnyFs::Ext2(ext2));
            assert(vfs.mounts.entries()[5].path@ =~= ext2_mount_path());
        }
    }
    let ghost mid = vfs.mounts.entries();
    assert(mid.subrange(0, 5) == start);
    if let Some(disk) = RamDisk::new(RAMDISK_BYTES) {
        if let Ok(fat) = Fat32Fs::format_and_mount(6, 1, disk) {
            let _ = vfs.mounts.register(vec![0x2fu8, 0x6d, 0x6e, 0x74, 0x2f, 0x66, 0x61, 0x74, 0x33, 0x32].as_slice(), AnyFs::Fat32(fat));
            let ghost n = mid.len() as int;
            assert(vfs.mounts.entries()[n].path@ =~= fat32_mount_path());
            assert forall|i: int| 0 <= i < n implies vfs.mounts.entries()[i] == mid[i] by {
                assert(vfs.mounts.entries().subrange(0, n)[i] == vfs.mounts.entries()[i]);
            }
            assert(vfs.mounts.entries().subrange(0, 5) =~= start);
        }
    }
}
} // verus!
