//! Filesystem errors, directory entries and the operations each filesystem provides.

use vstd::prelude::*;
use crate::fs::vfs::inode::{FileType, InodeAttr, InodeId, InodeMode};

verus! {

#[derive(Clone, Copy, Debug, PartialEq, Eq, Structural)]
pub enum FsError {
    NotFound,
    Exists,
    NotDir,
    IsDir,
    NotFile,
    NotSymlink,
    Invalid,
    Io,
    NoSpace,
    NotSupported,
    TooManyLinks,
    AccessDenied,
}

/// One directory entry as `readdir` reports it.
pub struct DirEntry {
    pub name: Vec<u8>,
    pub inode: InodeId,
    pub file_type: FileType,
}

impl DirEntry {
    pub fn empty() -> (r: Self)
        ensures
            r.name@.len() == 0,
            r.inode == (InodeId { mount: u32::MAX, ino: 0 }),
            r.file_type == FileType::Regular,
    {
        DirEntry { name: Vec::new(), inode: InodeId::invalid(), file_type: FileType::Regular }
    }
}

/// The operations of one filesystem type. The spec functions name what the
/// read-only operations answer in the filesystem's present state.
pub trait FileSystem: Sized {
    /// The root directory.
    spec fn root_spec(&self) -> InodeId;

    /// What `getattr` answers for `inode`.
    spec fn attr_of(&self, inode: InodeId) -> Result<InodeAttr, FsError>;

    /// What `lookup` answers for `name` in directory `dir`.
    spec fn child_of(&self, dir: InodeId, name: Seq<u8>) -> Result<InodeId, FsError>;

    /// What `readlink` answers for `inode`: the link target.
    spec fn link_of(&self, inode: InodeId) -> Result<Seq<u8>, FsError>;

    fn fs_type(&self) -> &'static str;

    fn root(&self) -> (r: InodeId)
        ensures
            r == self.root_spec(),
    ;

    fn getattr(&self, inode: InodeId) -> (r: Result<InodeAttr, FsError>)
        ensures
            r == self.attr_of(inode),
    ;

    fn lookup(&self, dir: InodeId, name: &[u8]) -> (r: Result<InodeId, FsError>)
        ensures
            r == self.child_of(dir, name@),
    ;

    /// Whether `after` is this filesystem once `create` of `name` in `dir` answered `r`.
    spec fn create_done(&self, after: Self, dir: InodeId, name: Seq<u8>, file_type: FileType, mode: InodeMode, r: Result<InodeId, FsError>) -> bool;

    fn create(&mut self, dir: InodeId, name: &[u8], file_type: FileType, mode: InodeMode) -> (r: Result<InodeId, FsError>)
        ensures
            old(self).create_done(*final(self), dir, name@, file_type, mode, r),
    ;

    /// Whether `after` is this filesystem once `mkdir` of `name` in `dir` answered `r`.
    spec fn mkdir_done(&self, after: Self, dir: InodeId, name: Seq<u8>, mode: InodeMode, r: Result<InodeId, FsError>) -> bool;

    fn mkdir(&mut self, dir: InodeId, name: &[u8], mode: InodeMode) -> (r: Result<InodeId, FsError>)
        ensures
            old(self).mkdir_done(*final(self), dir, name@, mode, r),
    ;

    /// Whether `after` is this filesystem once `unlink` of `name` in `dir` answered `r`.
    spec fn unlink_done(&self, after: Self, dir: InodeId, name: Seq<u8>, r: Result<(), FsError>) -> bool;

    fn unlink(&mut self, dir: InodeId, name: &[u8]) -> (r: Result<(), FsError>)
        ensures
            old(self).unlink_done(*final(self), dir, name@, r),
    ;

    /// What `read` answers for `inode` from `offset` into a buffer holding
    /// `buf`, and what the buffer holds after.
    spec fn read_result(&self, inode: InodeId, offset: u64, buf: Seq<u8>) -> (Result<usize, FsError>, Seq<u8>);

    /// Reads into `buf` from `offset`; the count read is at most the buffer's length.
    fn read(&self, inode: InodeId, offset: u64, buf: &mut Vec<u8>) -> (r: Result<usize, FsError>)
        ensures
            final(buf)@.len() == old(buf)@.len(),
            r matches Ok(n) ==> n <= old(buf)@.len(),
            (r, final(buf)@) == self.read_result(inode, offset, old(buf)@),
    ;

    /// Whether `after` is this filesystem once `write` of `buf` at `offset` into `inode` answered `r`.
    spec fn write_done(&self, after: Self, inode: InodeId, offset: u64, buf: Seq<u8>, r: Result<usize, FsError>) -> bool;

    fn write(&mut self, inode: InodeId, offset: u64, buf: &[u8]) -> (r: Result<usize, FsError>)
        ensures
            r matches Ok(n) ==> n <= buf@.len(),
            old(self).write_done(*final(self), inode, offset, buf@, r),
    ;

    /// What `readdir` finds at `index` in directory `dir`: the entry's name,
    /// inode and type, or `None` past the last entry.
    spec fn readdir_result(&self, dir: InodeId, index: u64) -> Result<Option<(Seq<u8>, InodeId, FileType)>, FsError>;

    /// Fills `entry` with the entry at `index` of `dir`; `false` past the
    /// last one, which leaves `entry` as it was, as does an error.
    fn readdir(&self, dir: InodeId, index: u64, entry: &mut DirEntry) -> (r: Result<bool, FsError>)
        ensures
            match self.readdir_result(dir, index) {
                Err(e) => r == Err::<bool, FsError>(e) && final(entry).name@ == old(entry).name@
                    && final(entry).inode == old(entry).inode && final(entry).file_type == old(entry).file_type,
                Ok(None) => r == Ok::<bool, FsError>(false) && final(entry).name@ == old(entry).name@
                    && final(entry).inode == old(entry).inode && final(entry).file_type == old(entry).file_type,
                Ok(Some((name, inode, file_type))) => r == Ok::<bool, FsError>(true) && final(entry).name@ == name
                    && final(entry).inode == inode && final(entry).file_type == file_type,
            },
    ;

    /// Hands back the link target in `buf`, and its length.
    fn readlink(&self, inode: InodeId, buf: &mut Vec<u8>) -> (r: Result<usize, FsError>)
        ensures
            match self.link_of(inode) {
                Ok(t) => r == Ok::<usize, FsError>(t.len() as usize) && final(buf)@ == t,
                Err(e) => r == Err::<usize, FsError>(e),
            },
    ;

    /// Whether `after` is this filesystem once `symlink` of `name` in `dir` to `target` answered `r`.
    spec fn symlink_done(&self, after: Self, dir: InodeId, name: Seq<u8>, target: Seq<u8>, mode: InodeMode, r: Result<InodeId, FsError>) -> bool;

    fn symlink(&mut self, dir: InodeId, name: &[u8], target: &[u8], mode: InodeMode) -> (r: Result<InodeId, FsError>)
        ensures
            old(self).symlink_done(*final(self), dir, name@, target@, mode, r),
    ;

    /// Whether `after` is this filesystem once `truncate` of `inode` to `size` answered `r`.
    spec fn truncate_done(&self, after: Self, inode: InodeId, size: u64, r: Result<(), FsError>) -> bool;

    fn truncate(&mut self, inode: InodeId, size: u64) -> (r: Result<(), FsError>)
        ensures
            old(self).truncate_done(*final(self), inode, size, r),
    ;
}

} // verus!
