//! Inode identity, file types, permission bits and attributes.

use vstd::prelude::*;

verus! {

/// An inode: the mount it belongs to and its number there.
#[derive(Clone, Copy, Debug, PartialEq, Eq, Structural, Hash)]
pub struct InodeId {
    pub mount: u32,
    pub ino: u64,
}

impl InodeId {
    /// No inode: the mount id `u32::MAX`.
    pub fn invalid() -> (r: Self)
        ensures
            r == (InodeId { mount: u32::MAX, ino: 0 }),
    {
        InodeId { mount: u32::MAX, ino: 0 }
    }

    pub fn new(mount: u32, ino: u64) -> (r: Self)
        ensures
            r == (InodeId { mount, ino }),
    {
        InodeId { mount, ino }
    }

    pub fn is_valid(self) -> (r: bool)
        ensures
            r == (self.mount != u32::MAX),
    {
        self.mount != u32::MAX
    }
}

#[derive(Clone, Copy, Debug, PartialEq, Eq, Structural)]
pub enum FileType {
    Regular,
    Directory,
    Symlink,
    CharDev,
    BlockDev,
    Fifo,
    Socket,
}

pub const OWNER_READ: u16 = 0o400;
pub const OWNER_WRITE: u16 = 0o200;
pub const OWNER_EXEC: u16 = 0o100;
pub const GROUP_READ: u16 = 0o040;
pub const GROUP_WRITE: u16 = 0o020;
pub const GROUP_EXEC: u16 = 0o010;
pub const OTHER_READ: u16 = 0o004;
pub const OTHER_WRITE: u16 = 0o002;
pub const OTHER_EXEC: u16 = 0o001;
/// All nine permission bits.
pub const MODE_ALL: u16 = 0o777;

/// Permission bits: owner, group and other read/write/execute.
#[derive(Clone, Copy, Debug, PartialEq, Eq, Structural)]
pub struct InodeMode {
    pub bits: u16,
}

impl InodeMode {
    pub open spec fn wf(self) -> bool {
        self.bits & MODE_ALL == self.bits
    }

    pub fn bits(&self) -> (r: u16)
        ensures
            r == self.bits,
    {
        self.bits
    }

    /// The permission bits of `bits`; the others are dropped.
    pub fn from_bits_truncate(bits: u16) -> (r: Self)
        ensures
            r.bits == bits & MODE_ALL,
            r.wf(),
    {
        assert((bits & 0o777u16) & 0o777u16 == bits & 0o777u16) by (bit_vector);
        InodeMode { bits: bits & MODE_ALL }
    }

    /// Whether every bit of `other` is set.
    pub fn contains(&self, other: InodeMode) -> (r: bool)
        ensures
            r == (self.bits & other.bits == other.bits),
    {
        self.bits & other.bits == other.bits
    }

    /// rw-r--r--
    pub fn default_file() -> (r: Self)
        ensures
            r.bits == 0o644,
            r.wf(),
    {
        let bits = OWNER_READ | OWNER_WRITE | GROUP_READ | OTHER_READ;
        assert(bits == 0o644) by (bit_vector)
            requires
                bits == 0o400u16 | 0o200u16 | 0o040u16 | 0o004u16,
        ;
        assert(0o644u16 & 0o777u16 == 0o644u16) by (bit_vector);
        InodeMode { bits }
    }

    /// rwxr-xr-x
    pub fn default_dir() -> (r: Self)
        ensures
            r.bits == 0o755,
            r.wf(),
    {
        let bits = OWNER_READ | OWNER_WRITE | OWNER_EXEC | GROUP_READ | GROUP_EXEC | OTHER_READ | OTHER_EXEC;
        assert(bits == 0o755) by (bit_vector)
            requires
                bits == 0o400u16 | 0o200u16 | 0o100u16 | 0o040u16 | 0o010u16 | 0o004u16 | 0o001u16,
        ;
        assert(0o755u16 & 0o777u16 == 0o755u16) by (bit_vector);
        InodeMode { bits }
    }
}

#[derive(Clone, Copy, Debug, PartialEq, Eq, Structural)]
pub struct InodeAttr {
    pub ino: u64,
    pub mode: InodeMode,
    pub file_type: FileType,
    pub size: u64,
    pub nlink: u32,
    pub generation: u64,
    pub rdev: u32,
}

} // verus!
