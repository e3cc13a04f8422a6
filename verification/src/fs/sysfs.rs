//! sysfs: `/sys` with the kernel's version text and empty class, devices
//! and module directories.

use vstd::prelude::*;
use crate::fs::block::overlay;
use crate::fs::devfs::{index_from, root_attr, ROOT_INO};
use crate::fs::names::{is_utf8, name_eq, utf8_ok};
use crate::fs::vfs::inode::{FileType, InodeAttr, InodeId, InodeMode};
use crate::fs::vfs::superblock::{DirEntry, FileSystem, FsError};

verus! {

pub struct SysNode {
    pub name: Vec<u8>,
    /// File content; empty for the directories.
    pub data: Vec<u8>,
}

pub struct SysFs {
    mount_id: u32,
    nodes: Vec<SysNode>,
}

/// Type, mode and size of a node with content `data`.
pub open spec fn sys_attr(ino: u64, data: Seq<u8>) -> InodeAttr {
    InodeAttr {
        ino,
        mode: if data.len() == 0 { InodeMode { bits: 0o755 } } else { InodeMode { bits: 0o644 } },
        file_type: if data.len() == 0 { FileType::Directory } else { FileType::Regular },
        size: data.len() as u64,
        nlink: 1,
        generation: 1,
        rdev: 0,
    }
}

impl SysFs {
    pub closed spec fn mount(&self) -> u32 {
        self.mount_id
    }

    pub closed spec fn names(&self) -> Seq<Seq<u8>> {
        self.nodes@.map_values(|n: SysNode| n.name@)
    }

    pub closed spec fn contents(&self) -> Seq<Seq<u8>> {
        self.nodes@.map_values(|n: SysNode| n.data@)
    }

    pub open spec fn slot(&self, ino: u64) -> Option<int> {
        if 2 <= ino && ino - 2 < self.names().len() { Some(ino - 2) } else { None }
    }

    /// `kernel` holding "Theory OS 0.1\n", then `class`, `devices` and
    /// `module`, numbered from 2.
    pub fn new(mount_id: u32) -> (r: Self)
        ensures
            r.mount() == mount_id,
            r.names() == seq![seq![0x6bu8, 0x65u8, 0x72u8, 0x6eu8, 0x65u8, 0x6cu8], seq![0x63u8, 0x6cu8, 0x61u8, 0x73u8, 0x73u8],
                seq![0x64u8, 0x65u8, 0x76u8, 0x69u8, 0x63u8, 0x65u8, 0x73u8], seq![0x6du8, 0x6fu8, 0x64u8, 0x75u8, 0x6cu8, 0x65u8]],
            r.contents() == seq![seq![0x54u8, 0x68u8, 0x65u8, 0x6fu8, 0x72u8, 0x79u8, 0x20u8, 0x4fu8, 0x53u8, 0x20u8, 0x30u8, 0x2eu8, 0x31u8, 0x0au8],
                Seq::<u8>::empty(), Seq::<u8>::empty(), Seq::<u8>::empty()],
    {
        let mut nodes: Vec<SysNode> = Vec::new();
        nodes.push(SysNode {
            name: vec![0x6bu8, 0x65u8, 0x72u8, 0x6eu8, 0x65u8, 0x6cu8],
            data: vec![0x54u8, 0x68u8, 0x65u8, 0x6fu8, 0x72u8, 0x79u8, 0x20u8, 0x4fu8, 0x53u8, 0x20u8, 0x30u8, 0x2eu8, 0x31u8, 0x0au8],
        });
        nodes.push(SysNode { name: vec![0x63u8, 0x6cu8, 0x61u8, 0x73u8, 0x73u8], data: Vec::new() });
        nodes.push(SysNode { name: vec![0x64u8, 0x65u8, 0x76u8, 0x69u8, 0x63u8, 0x65u8, 0x73u8], data: Vec::new() });
        nodes.push(SysNode { name: vec![0x6du8, 0x6fu8, 0x64u8, 0x75u8, 0x6cu8, 0x65u8], data: Vec::new() });
        let r = SysFs { mount_id, nodes };
        proof {
            assert(r.names() =~= seq![seq![0x6bu8, 0x65u8, 0x72u8, 0x6eu8, 0x65u8, 0x6cu8], seq![0x63u8, 0x6cu8, 0x61u8, 0x73u8, 0x73u8],
                seq![0x64u8, 0x65u8, 0x76u8, 0x69u8, 0x63u8, 0x65u8, 0x73u8], seq![0x6du8, 0x6fu8, 0x64u8, 0x75u8, 0x6cu8, 0x65u8]]);
            assert(r.contents()[1] =~= Seq::<u8>::empty());
            assert(r.contents()[2] =~= Seq::<u8>::empty());
            assert(r.contents()[3] =~= Seq::<u8>::empty());
            assert(r.contents() =~= seq![seq![0x54u8, 0x68u8, 0x65u8, 0x6fu8, 0x72u8, 0x79u8, 0x20u8, 0x4fu8, 0x53u8, 0x20u8, 0x30u8, 0x2eu8, 0x31u8, 0x0au8],
                Seq::<u8>::empty(), Seq::<u8>::empty(), Seq::<u8>::empty()]);
        }
        r
    }

    fn find(&self, ino: u64) -> (r: Option<usize>)
        ensures
            r matches Some(i) ==> self.slot(ino) == Some(i as int) && i < self.nodes@.len(),
            r is None ==> self.slot(ino) is None,
    {
        if ino >= 2 && ino - 2 < self.nodes.len() as u64 {
            Some((ino - 2) as usize)
        } else {
            None
        }
    }
}

impl FileSystem for SysFs {
    open spec fn root_spec(&self) -> InodeId {
        InodeId { mount: self.mount(), ino: ROOT_INO }
    }

    open spec fn attr_of(&self, inode: InodeId) -> Result<InodeAttr, FsError> {
        if inode.mount != self.mount() {
            Err(FsError::NotFound)
        } else if inode.ino == ROOT_INO {
            Ok(root_attr())
        } else {
            match self.slot(inode.ino) {
                None => Err(FsError::NotFound),
                Some(i) => Ok(sys_attr(inode.ino, self.contents()[i])),
            }
        }
    }

    open spec fn child_of(&self, dir: InodeId, name: Seq<u8>) -> Result<InodeId, FsError> {
        if dir.ino != ROOT_INO {
            Err(FsError::NotDir)
        } else if !is_utf8(name) {
            Err(FsError::Invalid)
        } else {
            match index_from(self.names(), name, 0) {
                Some(i) => Ok(InodeId { mount: self.mount(), ino: (i as u64).wrapping_add(2) }),
                None => Err(FsError::NotFound),
            }
        }
    }

    open spec fn link_of(&self, inode: InodeId) -> Result<Seq<u8>, FsError> {
        Err(FsError::NotSymlink)
    }

    fn fs_type(&self) -> (r: &'static str)
        ensures
            r@ == "sysfs"@,
    {
        "sysfs"
    }

    fn root(&self) -> (r: InodeId) {
        InodeId::new(self.mount_id, ROOT_INO)
    }

    fn getattr(&self, inode: InodeId) -> (r: Result<InodeAttr, FsError>) {
        if inode.mount != self.mount_id {
            return Err(FsError::NotFound);
        }
        if inode.ino == ROOT_INO {
            return Ok(InodeAttr { ino: ROOT_INO, mode: InodeMode::default_dir(), file_type: FileType::Directory,
                size: 0, nlink: 2, generation: 1, rdev: 0 });
        }
        let i = match self.find(inode.ino) {
            Some(i) => i,
            None => return Err(FsError::NotFound),
        };
        let node = &self.nodes[i];
        assert(self.contents()[i as int] == node.data@);
        let empty = node.data.len() == 0;
        Ok(InodeAttr {
            ino: inode.ino,
            mode: if empty { InodeMode::default_dir() } else { InodeMode::default_file() },
            file_type: if empty { FileType::Directory } else { FileType::Regular },
            size: node.data.len() as u64,
            nlink: 1,
            generation: 1,
            rdev: 0,
        })
    }

    fn lookup(&self, dir: InodeId, name: &[u8]) -> (r: Result<InodeId, FsError>) {
        if dir.ino != ROOT_INO {
            return Err(FsError::NotDir);
        }
        if !utf8_ok(name) {
            return Err(FsError::Invalid);
        }
        let mut i: usize = 0;
        while i < self.nodes.len()
            invariant
                0 <= i <= self.names().len(),
                self.names().len() == self.nodes@.len(),
                index_from(self.names(), name@, i as int) == index_from(self.names(), name@, 0),
                dir.ino == ROOT_INO,
                is_utf8(name@),
            decreases self.nodes@.len() - i,
        {
            assert(self.names()[i as int] == self.nodes@[i as int].name@);
            if name_eq(self.nodes[i].name.as_slice(), name) {
                assert(index_from(self.names(), name@, i as int) == Some(i as int));
                return Ok(InodeId::new(self.mount_id, (i as u64).wrapping_add(2)));
            }
            i = i + 1;
        }
        Err(FsError::NotFound)
    }

    open spec fn create_done(&self, after: Self, dir: InodeId, name: Seq<u8>, file_type: FileType, mode: InodeMode, r: Result<InodeId, FsError>) -> bool {
        r == Err::<InodeId, FsError>(FsError::AccessDenied) && after == *self
    }

    fn create(&mut self, dir: InodeId, name: &[u8], file_type: FileType, mode: InodeMode) -> (r: Result<InodeId, FsError>)
    {
        Err(FsError::AccessDenied)
    }

    open spec fn mkdir_done(&self, after: Self, dir: InodeId, name: Seq<u8>, mode: InodeMode, r: Result<InodeId, FsError>) -> bool {
        r == Err::<InodeId, FsError>(FsError::AccessDenied) && after == *self
    }

    fn mkdir(&mut self, dir: InodeId, name: &[u8], mode: InodeMode) -> (r: Result<InodeId, FsError>)
    {
        Err(FsError::AccessDenied)
    }

    open spec fn unlink_done(&self, after: Self, dir: InodeId, name: Seq<u8>, r: Result<(), FsError>) -> bool {
        r == Err::<(), FsError>(FsError::AccessDenied) && after == *self
    }

    fn unlink(&mut self, dir: InodeId, name: &[u8]) -> (r: Result<(), FsError>)
    {
        Err(FsError::AccessDenied)
    }

    open spec fn read_result(&self, inode: InodeId, offset: u64, buf: Seq<u8>) -> (Result<usize, FsError>, Seq<u8>) {
        match self.slot(inode.ino) {
            None => (Err(FsError::NotFound), buf),
            Some(i) => {
                let data = self.contents()[i];
                if data.len() == 0 {
                    (Err(FsError::IsDir), buf)
                } else if offset >= data.len() {
                    (Ok(0), buf)
                } else {
                    let n = if buf.len() < data.len() - offset { buf.len() as int } else { data.len() - offset };
                    (Ok(n as usize), overlay(buf, data.subrange(offset as int, offset + n)))
                }
            },
        }
    }

    fn read(&self, inode: InodeId, offset: u64, buf: &mut Vec<u8>) -> (r: Result<usize, FsError>)
    {
        let i = match self.find(inode.ino) {
            Some(i) => i,
            None => return Err(FsError::NotFound),
        };
        let data = &self.nodes[i].data;
        assert(self.contents()[i as int] == data@);
        if data.len() == 0 {
            return Err(FsError::IsDir);
        }
        if offset >= data.len() as u64 {
            return Ok(0);
        }
        let dlen = data.len();
        let start = offset as usize;
        let avail = dlen - start;
        let cnt = if buf.len() < avail { buf.len() } else { avail };
        let mut k: usize = 0;
        while k < cnt
            invariant
                0 <= k <= cnt,
                cnt <= buf@.len(),
                dlen == data@.len(),
                start + cnt <= dlen,
                buf@.len() == old(buf)@.len(),
                forall|j: int| 0 <= j < k ==> #[trigger] buf@[j] == data@[start + j],
                forall|j: int| k <= j < buf@.len() ==> #[trigger] buf@[j] == old(buf)@[j],
            decreases cnt - k,
        {
            buf.set(k, data[start + k]);
            k = k + 1;
        }
        assert(buf@ =~= overlay(old(buf)@, data@.subrange(start as int, start + cnt)));
        Ok(cnt)
    }

    open spec fn write_done(&self, after: Self, inode: InodeId, offset: u64, buf: Seq<u8>, r: Result<usize, FsError>) -> bool {
        r == Err::<usize, FsError>(FsError::AccessDenied) && after == *self
    }

    fn write(&mut self, inode: InodeId, offset: u64, buf: &[u8]) -> (r: Result<usize, FsError>)
    {
        Err(FsError::AccessDenied)
    }

    open spec fn readdir_result(&self, dir: InodeId, index: u64) -> Result<Option<(Seq<u8>, InodeId, FileType)>, FsError> {
        if dir.ino != ROOT_INO {
            Err(FsError::NotDir)
        } else if index >= self.names().len() {
            Ok(None)
        } else {
            let n = self.names()[index as int];
            Ok(Some((if n.len() <= 256 { n } else { n.subrange(0, 256) }, InodeId { mount: self.mount(), ino: index.wrapping_add(2) },
                sys_attr(0, self.contents()[index as int]).file_type)))
        }
    }

    fn readdir(&self, dir: InodeId, index: u64, entry: &mut DirEntry) -> (r: Result<bool, FsError>)
    {
        if dir.ino != ROOT_INO {
            return Err(FsError::NotDir);
        }
        if index >= self.nodes.len() as u64 {
            return Ok(false);
        }
        let i = index as usize;
        let node = &self.nodes[i];
        assert(self.names()[i as int] == node.name@ && self.contents()[i as int] == node.data@);
        let n = if node.name.len() < 256 { node.name.len() } else { 256 };
        let mut name: Vec<u8> = Vec::new();
        let mut k: usize = 0;
        while k < n
            invariant
                0 <= k <= n,
                n <= node.name@.len(),
                name@ == node.name@.subrange(0, k as int),
            decreases n - k,
        {
            name.push(node.name[k]);
            assert(name@ =~= node.name@.subrange(0, k + 1));
            k = k + 1;
        }
        if n == node.name.len() {
            assert(node.name@.subrange(0, n as int) =~= node.name@);
        }
        entry.name = name;
        entry.inode = InodeId::new(self.mount_id, index.wrapping_add(2));
        entry.file_type = if node.data.len() == 0 { FileType::Directory } else { FileType::Regular };
        Ok(true)
    }

    fn readlink(&self, inode: InodeId, buf: &mut Vec<u8>) -> (r: Result<usize, FsError>) {
        Err(FsError::NotSymlink)
    }

    open spec fn symlink_done(&self, after: Self, dir: InodeId, name: Seq<u8>, target: Seq<u8>, mode: InodeMode, r: Result<InodeId, FsError>) -> bool {
        r == Err::<InodeId, FsError>(FsError::AccessDenied) && after == *self
    }

    fn symlink(&mut self, dir: InodeId, name: &[u8], target: &[u8], mode: InodeMode) -> (r: Result<InodeId, FsError>)
    {
        Err(FsError::AccessDenied)
    }

    open spec fn truncate_done(&self, after: Self, inode: InodeId, size: u64, r: Result<(), FsError>) -> bool {
        r == Err::<(), FsError>(FsError::AccessDenied) && after == *self
    }

    fn truncate(&mut self, inode: InodeId, size: u64) -> (r: Result<(), FsError>)
    {
        Err(FsError::AccessDenied)
    }
}

} // verus!
