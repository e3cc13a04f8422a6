//! devfs: `/dev` with the console, null and zero devices and the standard
//! I/O links to the console.

use vstd::prelude::*;
use crate::bytes::copy_bytes;
use crate::fs::names::{is_utf8, name_eq, utf8_ok};
use crate::fs::vfs::inode::{FileType, InodeAttr, InodeId, InodeMode};
use crate::fs::vfs::superblock::{DirEntry, FileSystem, FsError};

verus! {

pub const ROOT_INO: u64 = 1;
/// `(major << 8) | minor` of the devices.
pub const DEV_CONSOLE: u32 = 0x501;
pub const DEV_NULL: u32 = 0x103;
pub const DEV_ZERO: u32 = 0x105;

#[derive(Clone, Copy, Debug, PartialEq, Eq, Structural)]
pub enum DevKind {
    Char { rdev: u32 },
    Symlink,
}

pub struct DevNode {
    pub name: Vec<u8>,
    pub kind: DevKind,
    /// Where a symlink points; empty for devices.
    pub target: Vec<u8>,
}

pub struct DevFs {
    mount_id: u32,
    nodes: Vec<DevNode>,
    console_out: Vec<u8>,
}

/// The index of the first name equal to `name`, searching from `i`.
pub open spec fn index_from(names: Seq<Seq<u8>>, name: Seq<u8>, i: int) -> Option<int>
    decreases names.len() - i,
{
    if i < 0 || i >= names.len() {
        None
    } else if names[i] == name {
        Some(i)
    } else {
        index_from(names, name, i + 1)
    }
}

/// The file type a node shows.
pub open spec fn kind_type(k: DevKind) -> FileType {
    match k {
        DevKind::Char { .. } => FileType::CharDev,
        DevKind::Symlink => FileType::Symlink,
    }
}

/// Attributes of the directory at the root of the static filesystems.
pub open spec fn root_attr() -> InodeAttr {
    InodeAttr { ino: ROOT_INO, mode: InodeMode { bits: 0o755 }, file_type: FileType::Directory, size: 0, nlink: 2, generation: 1, rdev: 0 }
}

fn root_dir_attr() -> (r: InodeAttr)
    ensures
        r == root_attr(),
{
    InodeAttr { ino: ROOT_INO, mode: InodeMode::default_dir(), file_type: FileType::Directory, size: 0, nlink: 2, generation: 1, rdev: 0 }
}

impl DevFs {
    pub closed spec fn mount(&self) -> u32 {
        self.mount_id
    }

    pub closed spec fn names(&self) -> Seq<Seq<u8>> {
        self.nodes@.map_values(|n: DevNode| n.name@)
    }

    pub closed spec fn kinds(&self) -> Seq<DevKind> {
        self.nodes@.map_values(|n: DevNode| n.kind)
    }

    pub closed spec fn targets(&self) -> Seq<Seq<u8>> {
        self.nodes@.map_values(|n: DevNode| n.target@)
    }

    /// Bytes written to the console device and not yet taken out.
    pub closed spec fn console_pending(&self) -> Seq<u8> {
        self.console_out@
    }

    /// Index in the node table of inode number `ino` (nodes start at 2).
    /// What `write` answers and the console output pending after it: the
    /// console, null and zero devices take every byte, and the console keeps
    /// what is valid UTF-8 for the console flush; a symlink is `NotFile`,
    /// another device `NotSupported`, an unknown inode `NotFound`.
    pub open spec fn write_effect(&self, inode: InodeId, buf: Seq<u8>) -> (Result<usize, FsError>, Seq<u8>) {
        let pending = self.console_pending();
        match self.slot(inode.ino) {
            None => (Err(FsError::NotFound), pending),
            Some(i) => match self.kinds()[i] {
                DevKind::Symlink => (Err(FsError::NotFile), pending),
                DevKind::Char { rdev } => if rdev == DEV_CONSOLE || rdev == DEV_NULL || rdev == DEV_ZERO {
                    (Ok(buf.len() as usize), if rdev == DEV_CONSOLE && is_utf8(buf) { pending + buf } else { pending })
                } else {
                    (Err(FsError::NotSupported), pending)
                },
            },
        }
    }

    pub open spec fn slot(&self, ino: u64) -> Option<int> {
        if 2 <= ino && ino - 2 < self.names().len() { Some(ino - 2) } else { None }
    }

    /// The seven nodes: console, null, zero, and stdin, stdout, stderr and
    /// tty as links to `console`, numbered from 2 in that order.
    pub fn new(mount_id: u32) -> (r: Self)
        ensures
            r.mount() == mount_id,
            r.names() == seq![seq![0x63u8, 0x6fu8, 0x6eu8, 0x73u8, 0x6fu8, 0x6cu8, 0x65u8], seq![0x6eu8, 0x75u8, 0x6cu8, 0x6cu8],
                seq![0x7au8, 0x65u8, 0x72u8, 0x6fu8], seq![0x73u8, 0x74u8, 0x64u8, 0x69u8, 0x6eu8],
                seq![0x73u8, 0x74u8, 0x64u8, 0x6fu8, 0x75u8, 0x74u8], seq![0x73u8, 0x74u8, 0x64u8, 0x65u8, 0x72u8, 0x72u8],
                seq![0x74u8, 0x74u8, 0x79u8]],
            r.kinds() == seq![DevKind::Char { rdev: DEV_CONSOLE }, DevKind::Char { rdev: DEV_NULL }, DevKind::Char { rdev: DEV_ZERO },
                DevKind::Symlink, DevKind::Symlink, DevKind::Symlink, DevKind::Symlink],
            forall|i: int| 0 <= i < 7 ==> #[trigger] r.targets()[i] == if i >= 3 {
                seq![0x63u8, 0x6fu8, 0x6eu8, 0x73u8, 0x6fu8, 0x6cu8, 0x65u8]
            } else {
                Seq::<u8>::empty()
            },
            r.console_pending().len() == 0,
    {
        let console: Vec<u8> = vec![0x63u8, 0x6fu8, 0x6eu8, 0x73u8, 0x6fu8, 0x6cu8, 0x65u8];
        let mut nodes: Vec<DevNode> = Vec::new();
        nodes.push(DevNode { name: copy_bytes(console.as_slice()), kind: DevKind::Char { rdev: DEV_CONSOLE }, target: Vec::new() });
        nodes.push(DevNode { name: vec![0x6eu8, 0x75u8, 0x6cu8, 0x6cu8], kind: DevKind::Char { rdev: DEV_NULL }, target: Vec::new() });
        nodes.push(DevNode { name: vec![0x7au8, 0x65u8, 0x72u8, 0x6fu8], kind: DevKind::Char { rdev: DEV_ZERO }, target: Vec::new() });
        nodes.push(DevNode { name: vec![0x73u8, 0x74u8, 0x64u8, 0x69u8, 0x6eu8], kind: DevKind::Symlink, target: copy_bytes(console.as_slice()) });
        nodes.push(DevNode { name: vec![0x73u8, 0x74u8, 0x64u8, 0x6fu8, 0x75u8, 0x74u8], kind: DevKind::Symlink, target: copy_bytes(console.as_slice()) });
        nodes.push(DevNode { name: vec![0x73u8, 0x74u8, 0x64u8, 0x65u8, 0x72u8, 0x72u8], kind: DevKind::Symlink, target: copy_bytes(console.as_slice()) });
        nodes.push(DevNode { name: vec![0x74u8, 0x74u8, 0x79u8], kind: DevKind::Symlink, target: copy_bytes(console.as_slice()) });
        let r = DevFs { mount_id, nodes, console_out: Vec::new() };
        proof {
            assert(r.names() =~= seq![seq![0x63u8, 0x6fu8, 0x6eu8, 0x73u8, 0x6fu8, 0x6cu8, 0x65u8], seq![0x6eu8, 0x75u8, 0x6cu8, 0x6cu8],
                seq![0x7au8, 0x65u8, 0x72u8, 0x6fu8], seq![0x73u8, 0x74u8, 0x64u8, 0x69u8, 0x6eu8],
                seq![0x73u8, 0x74u8, 0x64u8, 0x6fu8, 0x75u8, 0x74u8], seq![0x73u8, 0x74u8, 0x64u8, 0x65u8, 0x72u8, 0x72u8],
                seq![0x74u8, 0x74u8, 0x79u8]]);
            assert(r.kinds() =~= seq![DevKind::Char { rdev: DEV_CONSOLE }, DevKind::Char { rdev: DEV_NULL }, DevKind::Char { rdev: DEV_ZERO },
                DevKind::Symlink, DevKind::Symlink, DevKind::Symlink, DevKind::Symlink]);
            assert forall|i: int| 0 <= i < 7 implies #[trigger] r.targets()[i] == if i >= 3 {
                seq![0x63u8, 0x6fu8, 0x6eu8, 0x73u8, 0x6fu8, 0x6cu8, 0x65u8]
            } else {
                Seq::<u8>::empty()
            } by {
                if i >= 3 {
                    assert(r.targets()[i] =~= seq![0x63u8, 0x6fu8, 0x6eu8, 0x73u8, 0x6fu8, 0x6cu8, 0x65u8]);
                } else {
                    assert(r.targets()[i] =~= Seq::<u8>::empty());
                }
            }
        }
        r
    }

    /// Hands out what was written to the console device, in order, and
    /// forgets it.
    pub fn take_console_output(&mut self) -> (r: Vec<u8>)
        ensures
            r@ == old(self).console_pending(),
            final(self).console_pending().len() == 0,
            final(self).mount() == old(self).mount(),
            final(self).names() == old(self).names(),
            final(self).kinds() == old(self).kinds(),
            final(self).targets() == old(self).targets(),
    {
        let mut out: Vec<u8> = Vec::new();
        std::mem::swap(&mut out, &mut self.console_out);
        out
    }

    fn find(&self, ino: u64) -> (r: Option<usize>)
        ensures
            r matches Some(i) ==> self.slot(ino) == Some(i as int) && i < self.nodes@.len(),
            r is None ==> self.slot(ino) is None,
    {
        if ino >= 2 && ino - 2 < self.nodes.len() as u64 {
            Some((ino - 2) as usize)
        } else {
            None
        }
    }
}

impl FileSystem for DevFs {
    open spec fn root_spec(&self) -> InodeId {
        InodeId { mount: self.mount(), ino: ROOT_INO }
    }

    open spec fn attr_of(&self, inode: InodeId) -> Result<InodeAttr, FsError> {
        if inode.mount != self.mount() {
            Err(FsError::NotFound)
        } else if inode.ino == ROOT_INO {
            Ok(root_attr())
        } else {
            match self.slot(inode.ino) {
                None => Err(FsError::NotFound),
                Some(i) => Ok(InodeAttr {
                    ino: inode.ino,
                    mode: InodeMode { bits: 0o644 },
                    file_type: kind_type(self.kinds()[i]),
                    size: 0,
                    nlink: 1,
                    generation: 1,
                    rdev: match self.kinds()[i] { DevKind::Char { rdev } => rdev, DevKind::Symlink => 0 },
                }),
            }
        }
    }

    open spec fn child_of(&self, dir: InodeId, name: Seq<u8>) -> Result<InodeId, FsError> {
        if dir.ino != ROOT_INO {
            Err(FsError::NotDir)
        } else if !is_utf8(name) {
            Err(FsError::Invalid)
        } else {
            match index_from(self.names(), name, 0) {
                Some(i) => Ok(InodeId { mount: self.mount(), ino: (i as u64).wrapping_add(2) }),
                None => Err(FsError::NotFound),
            }
        }
    }

    open spec fn link_of(&self, inode: InodeId) -> Result<Seq<u8>, FsError> {
        match self.slot(inode.ino) {
            None => Err(FsError::NotFound),
            Some(i) => if self.kinds()[i] != DevKind::Symlink { Err(FsError::NotSymlink) } else { Ok(self.targets()[i]) },
        }
    }

    fn fs_type(&self) -> (r: &'static str)
        ensures
            r@ == "devfs"@,
    {
        "devfs"
    }

    fn root(&self) -> (r: InodeId) {
        InodeId::new(self.mount_id, ROOT_INO)
    }

    fn getattr(&self, inode: InodeId) -> (r: Result<InodeAttr, FsError>) {
        if inode.mount != self.mount_id {
            return Err(FsError::NotFound);
        }
        if inode.ino == ROOT_INO {
            return Ok(root_dir_attr());
        }
        let i = match self.find(inode.ino) {
            Some(i) => i,
            None => return Err(FsError::NotFound),
        };
        let kind = self.nodes[i].kind;
        assert(kind == self.kinds()[i as int]);
        let (file_type, rdev) = match kind {
            DevKind::Char { rdev } => (FileType::CharDev, rdev),
            DevKind::Symlink => (FileType::Symlink, 0u32),
        };
        Ok(InodeAttr { ino: inode.ino, mode: InodeMode::default_file(), file_type, size: 0, nlink: 1, generation: 1, rdev })
    }

    fn lookup(&self, dir: InodeId, name: &[u8]) -> (r: Result<InodeId, FsError>) {
        if dir.ino != ROOT_INO {
            return Err(FsError::NotDir);
        }
        if !utf8_ok(name) {
            return Err(FsError::Invalid);
        }
        let mut i: usize = 0;
        while i < self.nodes.len()
            invariant
                0 <= i <= self.names().len(),
                self.names().len() == self.nodes@.len(),
                index_from(self.names(), name@, i as int) == index_from(self.names(), name@, 0),
                dir.ino == ROOT_INO,
                is_utf8(name@),
            decreases self.nodes@.len() - i,
        {
            assert(self.names()[i as int] == self.nodes@[i as int].name@);
            if name_eq(self.nodes[i].name.as_slice(), name) {
                assert(self.names()[i as int] == name@);
                assert(index_from(self.names(), name@, i as int) == Some(i as int));
                return Ok(InodeId::new(self.mount_id, (i as u64).wrapping_add(2)));
            }
            i = i + 1;
        }
        Err(FsError::NotFound)
    }

    open spec fn create_done(&self, after: Self, dir: InodeId, name: Seq<u8>, file_type: FileType, mode: InodeMode, r: Result<InodeId, FsError>) -> bool {
        r == Err::<InodeId, FsError>(FsError::AccessDenied) && after == *self
    }

    fn create(&mut self, dir: InodeId, name: &[u8], file_type: FileType, mode: InodeMode) -> (r: Result<InodeId, FsError>)
    {
        Err(FsError::AccessDenied)
    }

    open spec fn mkdir_done(&self, after: Self, dir: InodeId, name: Seq<u8>, mode: InodeMode, r: Result<InodeId, FsError>) -> bool {
        r == Err::<InodeId, FsError>(FsError::AccessDenied) && after == *self
    }

    fn mkdir(&mut self, dir: InodeId, name: &[u8], mode: InodeMode) -> (r: Result<InodeId, FsError>)
    {
        Err(FsError::AccessDenied)
    }

    open spec fn unlink_done(&self, after: Self, dir: InodeId, name: Seq<u8>, r: Result<(), FsError>) -> bool {
        r == Err::<(), FsError>(FsError::AccessDenied) && after == *self
    }

    fn unlink(&mut self, dir: InodeId, name: &[u8]) -> (r: Result<(), FsError>)
    {
        Err(FsError::AccessDenied)
    }

    /// The console has no input yet and reads as end of file, as does null;
    /// zero fills the whole buffer.
    open spec fn read_result(&self, inode: InodeId, offset: u64, buf: Seq<u8>) -> (Result<usize, FsError>, Seq<u8>) {
        match self.slot(inode.ino) {
            None => (Err(FsError::NotFound), buf),
            Some(i) => match self.kinds()[i] {
                DevKind::Symlink => (Err(FsError::NotFile), buf),
                DevKind::Char { rdev } => if rdev == DEV_ZERO {
                    (Ok(buf.len() as usize), Seq::new(buf.len(), |j: int| 0u8))
                } else if rdev == DEV_CONSOLE || rdev == DEV_NULL {
                    (Ok(0), buf)
                } else {
                    (Err(FsError::NotSupported), buf)
                },
            },
        }
    }

    fn read(&self, inode: InodeId, offset: u64, buf: &mut Vec<u8>) -> (r: Result<usize, FsError>)
    {
        let i = match self.find(inode.ino) {
            Some(i) => i,
            None => return Err(FsError::NotFound),
        };
        let kind = self.nodes[i].kind;
        assert(kind == self.kinds()[i as int]);
        match kind {
            DevKind::Symlink => Err(FsError::NotFile),
            DevKind::Char { rdev } => {
                if rdev == DEV_CONSOLE || rdev == DEV_NULL {
                    Ok(0)
                } else if rdev == DEV_ZERO {
                    let mut k: usize = 0;
                    while k < buf.len()
                        invariant
                            0 <= k <= buf@.len(),
                            buf@.len() == old(buf)@.len(),
                            forall|j: int| 0 <= j < k ==> #[trigger] buf@[j] == 0u8,
                        decreases buf@.len() - k,
                    {
                        buf.set(k, 0);
                        k = k + 1;
                    }
                    assert(buf@ =~= Seq::new(old(buf)@.len(), |j: int| 0u8));
                    Ok(buf.len())
                } else {
                    Err(FsError::NotSupported)
                }
            },
        }
    }

    /// Console writes are queued for the serial port when they are UTF-8;
    /// every write to a device is taken whole.
    open spec fn write_done(&self, after: Self, inode: InodeId, offset: u64, buf: Seq<u8>, r: Result<usize, FsError>) -> bool {
        &&& after.mount() == self.mount()
        &&& after.names() == self.names()
        &&& after.kinds() == self.kinds()
        &&& after.targets() == self.targets()
        &&& (r, after.console_pending()) == self.write_effect(inode, buf)
    }

    fn write(&mut self, inode: InodeId, offset: u64, buf: &[u8]) -> (r: Result<usize, FsError>)
    {
        let i = match self.find(inode.ino) {
            Some(i) => i,
            None => return Err(FsError::NotFound),
        };
        let kind = self.nodes[i].kind;
        assert(kind == self.kinds()[i as int]);
        match kind {
            DevKind::Symlink => Err(FsError::NotFile),
            DevKind::Char { rdev } => {
                if rdev == DEV_CONSOLE {
                    if utf8_ok(buf) {
                        let mut k: usize = 0;
                        let ghost start = self.console_out@;
                        while k < buf.len()
                            invariant
                                0 <= k <= buf@.len(),
                                self.console_out@ == start + buf@.subrange(0, k as int),
                                self.mount_id == old(self).mount_id,
                                self.nodes == old(self).nodes,
                            decreases buf@.len() - k,
                        {
                            self.console_out.push(buf[k]);
                            assert(self.console_out@ =~= start + buf@.subrange(0, k + 1));
                            k = k + 1;
                        }
                        assert(buf@.subrange(0, buf@.len() as int) =~= buf@);
                    }
                    Ok(buf.len())
                } else if rdev == DEV_NULL || rdev == DEV_ZERO {
                    Ok(buf.len())
                } else {
                    Err(FsError::NotSupported)
                }
            },
        }
    }

    open spec fn readdir_result(&self, dir: InodeId, index: u64) -> Result<Option<(Seq<u8>, InodeId, FileType)>, FsError> {
        if dir.ino != ROOT_INO {
            Err(FsError::NotDir)
        } else if index >= self.names().len() {
            Ok(None)
        } else {
            let n = self.names()[index as int];
            Ok(Some((if n.len() <= 256 { n } else { n.subrange(0, 256) }, InodeId { mount: self.mount(), ino: index.wrapping_add(2) },
                kind_type(self.kinds()[index as int]))))
        }
    }

    fn readdir(&self, dir: InodeId, index: u64, entry: &mut DirEntry) -> (r: Result<bool, FsError>)
    {
        if dir.ino != ROOT_INO {
            return Err(FsError::NotDir);
        }
        if index >= self.nodes.len() as u64 {
            return Ok(false);
        }
        let i = index as usize;
        let node = &self.nodes[i];
        assert(self.names()[i as int] == node.name@ && self.kinds()[i as int] == node.kind);
        let n = if node.name.len() < 256 { node.name.len() } else { 256 };
        let mut name: Vec<u8> = Vec::new();
        let mut k: usize = 0;
        while k < n
            invariant
                0 <= k <= n,
                n <= node.name@.len(),
                name@ == node.name@.subrange(0, k as int),
            decreases n - k,
        {
            name.push(node.name[k]);
            assert(name@ =~= node.name@.subrange(0, k + 1));
            k = k + 1;
        }
        if n == node.name.len() {
            assert(node.name@.subrange(0, n as int) =~= node.name@);
        }
        entry.name = name;
        entry.inode = InodeId::new(self.mount_id, index.wrapping_add(2));
        entry.file_type = match node.kind {
            DevKind::Char { .. } => FileType::CharDev,
            DevKind::Symlink => FileType::Symlink,
        };
        Ok(true)
    }

    fn readlink(&self, inode: InodeId, buf: &mut Vec<u8>) -> (r: Result<usize, FsError>) {
        let i = match self.find(inode.ino) {
            Some(i) => i,
            None => return Err(FsError::NotFound),
        };
        let node = &self.nodes[i];
        assert(self.kinds()[i as int] == node.kind && self.targets()[i as int] == node.target@);
        if node.kind != DevKind::Symlink {
            return Err(FsError::NotSymlink);
        }
        let t = copy_bytes(node.target.as_slice());
        let len = t.len();
        *buf = t;
        Ok(len)
    }

    open spec fn symlink_done(&self, after: Self, dir: InodeId, name: Seq<u8>, target: Seq<u8>, mode: InodeMode, r: Result<InodeId, FsError>) -> bool {
        r == Err::<InodeId, FsError>(FsError::AccessDenied) && after == *self
    }

    fn symlink(&mut self, dir: InodeId, name: &[u8], target: &[u8], mode: InodeMode) -> (r: Result<InodeId, FsError>)
    {
        Err(FsError::AccessDenied)
    }

    open spec fn truncate_done(&self, after: Self, inode: InodeId, size: u64, r: Result<(), FsError>) -> bool {
        r == Err::<(), FsError>(FsError::AccessDenied) && after == *self
    }

    fn truncate(&mut self, inode: InodeId, size: u64) -> (r: Result<(), FsError>)
    {
        Err(FsError::AccessDenied)
    }
}

} // verus!
