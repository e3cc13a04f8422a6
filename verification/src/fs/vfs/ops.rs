//! File operations over the mount table and the dentry cache.

use vstd::prelude::*;
use crate::fs::fd::{OpenFlags, O_APPEND, O_CREAT, O_NOFOLLOW, O_RDONLY, O_TRUNC, O_WRONLY};
use crate::fs::vfs::dentry::{Dentry, DentryCache};
use crate::fs::vfs::file::OpenFile;
use crate::fs::vfs::inode::{FileType, InodeAttr, InodeId, InodeMode};
use crate::fs::vfs::mount::{MountPoint, MountTable};
use crate::fs::vfs::path::{
    invalidate_dentry, invalidated, lookup_parent, parent_path, parent_split, path_lookup, resolve_path_at, revalidate,
    stale_error, ResolvedInode,
};
use crate::fs::vfs::superblock::{FileSystem, FsError};

verus! {

/// Largest file `read_path` reads whole: 16 MiB.
pub const MAX_FILE_READ: usize = 16777216;

pub const SEEK_SET: u32 = 0;
pub const SEEK_CUR: u32 = 1;
pub const SEEK_END: u32 = 2;

/// The mounted filesystems and the dentry cache in front of them.
pub struct Vfs<F> {
    pub mounts: MountTable<F>,
    pub dentries: DentryCache,
}

impl<F: FileSystem> Vfs<F> {
    pub open spec fn wf(&self) -> bool {
        self.mounts.wf() && self.dentries.wf()
    }

    pub fn new() -> (r: Self)
        ensures
            r.wf(),
            r.mounts.entries().len() == 0,
    {
        Vfs { mounts: MountTable::new(), dentries: DentryCache::new() }
    }

    /// The filesystem that owns `inode`, by its mount id.
    pub open spec fn fs_of(&self, inode: InodeId) -> Option<F> {
        if (inode.mount as int) < self.mounts.entries().len() {
            Some(self.mounts.entries()[inode.mount as int].fs)
        } else {
            None
        }
    }
}

/// Where `lseek` moves an offset, or `None` for an unknown `whence`.
/// Offsets are added with two's-complement wrap-around.
pub open spec fn seek_target(current: u64, size: u64, offset: i64, whence: u32) -> Option<u64> {
    if whence == SEEK_SET {
        Some(offset as u64)
    } else if whence == SEEK_CUR {
        Some((current as i64).wrapping_add(offset) as u64)
    } else if whence == SEEK_END {
        Some((size as i64).wrapping_add(offset) as u64)
    } else {
        None
    }
}

pub fn lseek_target(current: u64, size: u64, offset: i64, whence: u32) -> (r: Option<u64>)
    ensures
        r == seek_target(current, size, offset, whence),
{
    if whence == SEEK_SET {
        Some(offset as u64)
    } else if whence == SEEK_CUR {
        Some((current as i64).wrapping_add(offset) as u64)
    } else if whence == SEEK_END {
        Some((size as i64).wrapping_add(offset) as u64)
    } else {
        None
    }
}

/// Moves the file offset; the new offset is returned.
pub fn lseek_file<F: FileSystem>(vfs: &Vfs<F>, file: &mut OpenFile, offset: i64, whence: u32) -> (r: Result<u64, FsError>)
    requires
        vfs.wf(),
    ensures
        match vfs.fs_of(old(file).inode) {
            None => r == Err::<u64, FsError>(FsError::NotFound) && *final(file) == *old(file),
            Some(fs) => match fs.attr_of(old(file).inode) {
                Err(e) => r == Err::<u64, FsError>(e) && *final(file) == *old(file),
                Ok(a) => match seek_target(old(file).offset, a.size, offset, whence) {
                    None => r == Err::<u64, FsError>(FsError::Invalid) && *final(file) == *old(file),
                    Some(t) => r == Ok::<u64, FsError>(t) && *final(file) == (OpenFile { offset: t, ..*old(file) }),
                },
            },
        },
{
    let fs = match vfs.mounts.fs(file.inode.mount) {
        Some(f) => f,
        None => return Err(FsError::NotFound),
    };
    let size = fs.getattr(file.inode)?.size;
    match lseek_target(file.offset, size, offset, whence) {
        Some(t) => {
            file.offset = t;
            Ok(t)
        },
        None => Err(FsError::Invalid),
    }
}

/// Reads at the file offset into `buf` and advances the offset by the count
/// read (wrapping). Refused when the inode's generation changed since open.
pub fn read_file<F: FileSystem>(vfs: &Vfs<F>, file: &mut OpenFile, buf: &mut Vec<u8>) -> (r: Result<usize, FsError>)
    requires
        vfs.wf(),
    ensures
        final(buf)@.len() == old(buf)@.len(),
        r matches Ok(n) ==> n <= old(buf)@.len(),
        match vfs.fs_of(old(file).inode) {
            None => r == Err::<usize, FsError>(FsError::NotFound) && *final(file) == *old(file) && final(buf)@ == old(buf)@,
            Some(fs) => match fs.attr_of(old(file).inode) {
                Err(e) => r == Err::<usize, FsError>(e) && *final(file) == *old(file) && final(buf)@ == old(buf)@,
                Ok(a) => if a.generation != old(file).generation {
                    r == Err::<usize, FsError>(FsError::Invalid) && *final(file) == *old(file) && final(buf)@ == old(buf)@
                } else {
                    let (res, after) = fs.read_result(old(file).inode, old(file).offset, old(buf)@);
                    &&& r == res
                    &&& final(buf)@ == after
                    &&& *final(file) == match res {
                        Ok(n) => OpenFile { offset: old(file).offset.wrapping_add(n as u64), ..*old(file) },
                        Err(_) => *old(file),
                    }
                },
            },
        },
{
    let fs = match vfs.mounts.fs(file.inode.mount) {
        Some(f) => f,
        None => return Err(FsError::NotFound),
    };
    let attr = fs.getattr(file.inode)?;
    if attr.generation != file.generation {
        return Err(FsError::Invalid);
    }
    let n = fs.read(file.inode, file.offset, buf)?;
    file.offset = file.offset.wrapping_add(n as u64);
    Ok(n)
}

/// Where a write through `file` starts: at the end of the file with
/// `O_APPEND`, else at the file offset.
pub open spec fn write_start(file: OpenFile, size: u64) -> u64 {
    if file.flags.bits & O_APPEND == O_APPEND { size } else { file.offset }
}

/// Writes `buf` at the file offset, or at the end of the file with
/// `O_APPEND`; the offset moves past what was written and the recorded
/// generation becomes the inode's new one. Refused when the generation
/// changed since open.
pub fn write_file<F: FileSystem>(vfs: &mut Vfs<F>, file: &mut OpenFile, buf: &[u8]) -> (r: Result<usize, FsError>)
    requires
        old(vfs).wf(),
    ensures
        final(vfs).wf(),
        final(vfs).dentries == old(vfs).dentries,
        match old(vfs).fs_of(old(file).inode) {
            None => r == Err::<usize, FsError>(FsError::NotFound) && *final(file) == *old(file)
                && final(vfs).mounts.entries() == old(vfs).mounts.entries(),
            Some(fs) => match fs.attr_of(old(file).inode) {
                Err(e) => r == Err::<usize, FsError>(e) && *final(file) == *old(file)
                    && final(vfs).mounts.entries() == old(vfs).mounts.entries(),
                Ok(a) => if a.generation != old(file).generation {
                    r == Err::<usize, FsError>(FsError::Invalid) && *final(file) == *old(file)
                        && final(vfs).mounts.entries() == old(vfs).mounts.entries()
                } else {
                    let start = write_start(*old(file), a.size);
                    let m = old(file).inode.mount as int;
                    let fs2 = final(vfs).mounts.entries()[m].fs;
                    &&& final(vfs).mounts.entries() == old(vfs).mounts.entries().update(m, MountPoint { fs: fs2, ..old(vfs).mounts.entries()[m] })
                    &&& exists|wr: Result<usize, FsError>| #[trigger] fs.write_done(fs2, old(file).inode, start, buf@, wr) && match wr {
                        Err(e) => r == Err::<usize, FsError>(e) && *final(file) == *old(file),
                        Ok(n) => match fs2.attr_of(old(file).inode) {
                            Err(e) => r == Err::<usize, FsError>(e)
                                && *final(file) == (OpenFile { offset: start.wrapping_add(n as u64), ..*old(file) }),
                            Ok(a2) => r == Ok::<usize, FsError>(n) && *final(file) == (OpenFile {
                                offset: start.wrapping_add(n as u64),
                                generation: a2.generation,
                                ..*old(file)
                            }),
                        },
                    }
                },
            },
        },
{
    let mount = file.inode.mount;
    let fs = match vfs.mounts.fs_mut(mount) {
        Some(f) => f,
        None => return Err(FsError::NotFound),
    };
    let attr = fs.getattr(file.inode)?;
    if attr.generation != file.generation {
        return Err(FsError::Invalid);
    }
    let offset = if file.flags.contains(OpenFlags { bits: O_APPEND }) { attr.size } else { file.offset };
    assert(offset == write_start(*old(file), attr.size));
    let n = fs.write(file.inode, offset, buf)?;
    file.offset = offset.wrapping_add(n as u64);
    let after = fs.getattr(file.inode)?;
    file.generation = after.generation;
    Ok(n)
}

/// The attributes of what `path` resolves to (`follow_final` set).
pub fn stat_path<F: FileSystem>(vfs: &mut Vfs<F>, path: &[u8]) -> (r: Result<InodeAttr, FsError>)
    requires
        old(vfs).wf(),
    ensures
        final(vfs).wf(),
        final(vfs).mounts == old(vfs).mounts,
        ({
            let (pr, after) = path_lookup(old(vfs).mounts, old(vfs).dentries.slots(), path@, true);
            &&& final(vfs).dentries.slots() == after
            &&& r == match pr {
                Ok(res) => Ok::<InodeAttr, FsError>(res.attr),
                Err(e) => Err(e),
            }
        }),
        r matches Ok(a) ==> exists|inode: InodeId| #[trigger] crate::fs::vfs::path::attr_in_table(
            old(vfs).mounts, ResolvedInode { inode, attr: a }),
{
    let res = resolve_path_at(&vfs.mounts, &mut vfs.dentries, path, true)?;
    Ok(res.attr)
}

fn has_flag(flags: OpenFlags, bit: u32) -> (r: bool)
    ensures
        r == (flags.bits & bit == bit),
{
    flags.contains(OpenFlags { bits: bit })
}

/// How opening what `resolved` names with `flags` leaves the mounts, and
/// what it answers: without `O_TRUNC` nothing changes; with it the inode is
/// checked against the generation seen and then cut to length 0.
pub open spec fn open_effect<F: FileSystem>(
    before: MountTable<F>,
    after: MountTable<F>,
    resolved: ResolvedInode,
    flags: OpenFlags,
    r: Result<OpenFile, FsError>,
) -> bool {
    let opened = OpenFile { inode: resolved.inode, offset: 0, flags, generation: resolved.attr.generation };
    if flags.bits & O_TRUNC != O_TRUNC {
        after.entries() == before.entries() && r == Ok::<OpenFile, FsError>(opened)
    } else {
        match stale_error(before, resolved) {
            Some(e) => after.entries() == before.entries() && r == Err::<OpenFile, FsError>(e),
            None => {
                let m = resolved.inode.mount as int;
                let fs2 = after.entries()[m].fs;
                &&& after.entries() == before.entries().update(m, MountPoint { fs: fs2, ..before.entries()[m] })
                &&& exists|tr: Result<(), FsError>| #[trigger] before.entries()[m].fs.truncate_done(fs2, resolved.inode, 0, tr)
                    && (tr is Err ==> r == Err::<OpenFile, FsError>(tr->Err_0))
                    && (tr is Ok ==> r == Ok::<OpenFile, FsError>(opened))
            },
        }
    }
}

/// Opens what `path` resolved to; with `O_TRUNC` the file is first
/// revalidated and cut to length 0.
fn finish_open<F: FileSystem>(vfs: &mut Vfs<F>, resolved: ResolvedInode, flags: OpenFlags) -> (r: Result<OpenFile, FsError>)
    requires
        old(vfs).wf(),
    ensures
        final(vfs).wf(),
        final(vfs).dentries == old(vfs).dentries,
        flags.bits & O_TRUNC != O_TRUNC ==> *final(vfs) == *old(vfs),
        r matches Ok(f) ==> f == (OpenFile { inode: resolved.inode, offset: 0, flags, generation: resolved.attr.generation }),
        flags.bits & O_TRUNC != O_TRUNC ==> r is Ok,
        open_effect(old(vfs).mounts, final(vfs).mounts, resolved, flags, r),
{
    if has_flag(flags, O_TRUNC) {
        revalidate(&vfs.mounts, &resolved)?;
        let fs = match vfs.mounts.fs_mut(resolved.inode.mount) {
            Some(f) => f,
            None => return Err(FsError::NotFound),
        };
        fs.truncate(resolved.inode, 0)?;
    }
    Ok(OpenFile { inode: resolved.inode, offset: 0, flags, generation: resolved.attr.generation })
}

/// How making a file for `path` leaves the mounts and the cache slots, and
/// what it answers: the directory that would hold it is resolved, a regular
/// file (mode 0644) is created there, the cache entries leading to that
/// directory are dropped, and the new file is opened at offset 0 with the
/// generation it has.
pub open spec fn create_file_effect<F: FileSystem>(
    m0: MountTable<F>,
    s0: Seq<Option<Dentry>>,
    m1: MountTable<F>,
    s1: Seq<Option<Dentry>>,
    path: Seq<u8>,
    flags: OpenFlags,
    r: Result<OpenFile, FsError>,
) -> bool {
    match parent_split(path) {
        Err(e) => r == Err::<OpenFile, FsError>(e) && m1.entries() == m0.entries() && s1 == s0,
        Ok((pl, nl)) => {
            let (pr, after) = path_lookup(m0, s0, parent_path(path, pl), true);
            match pr {
                Err(e) => r == Err::<OpenFile, FsError>(e) && m1.entries() == m0.entries() && s1 == after,
                Ok(res) => {
                    let m = res.inode.mount as int;
                    let name = path.subrange(path.len() - nl, path.len() as int);
                    if m >= m0.entries().len() {
                        r == Err::<OpenFile, FsError>(FsError::NotFound) && m1.entries() == m0.entries() && s1 == after
                    } else {
                        let fs2 = m1.entries()[m].fs;
                        &&& m1.entries() == m0.entries().update(m, MountPoint { fs: fs2, ..m0.entries()[m] })
                        &&& exists|cr: Result<InodeId, FsError>| #[trigger] m0.entries()[m].fs.create_done(fs2, res.inode, name,
                                FileType::Regular, InodeMode { bits: 0o644 }, cr) && match cr {
                            Err(e) => r == Err::<OpenFile, FsError>(e) && s1 == after,
                            Ok(ino) => s1 == invalidated(after, res.inode) && if ino.mount as int >= m1.entries().len() {
                                r == Err::<OpenFile, FsError>(FsError::NotFound)
                            } else {
                                match m1.entries()[ino.mount as int].fs.attr_of(ino) {
                                    Err(e) => r == Err::<OpenFile, FsError>(e),
                                    Ok(a) => r == Ok::<OpenFile, FsError>(OpenFile { inode: ino, offset: 0, flags, generation: a.generation }),
                                }
                            },
                        }
                    }
                },
            }
        },
    }
}

/// Creates a regular file (mode 0644) for a path that does not exist yet and
/// opens it at offset 0.
fn create_file<F: FileSystem>(vfs: &mut Vfs<F>, path: &[u8], flags: OpenFlags) -> (r: Result<OpenFile, FsError>)
    requires
        old(vfs).wf(),
    ensures
        final(vfs).wf(),
        create_file_effect(old(vfs).mounts, old(vfs).dentries.slots(), final(vfs).mounts, final(vfs).dentries.slots(), path@, flags, r),
        r matches Ok(f) ==> ({
            let fs = final(vfs).fs_of(f.inode)->Some_0;
            &&& f.offset == 0
            &&& f.flags == flags
            &&& final(vfs).fs_of(f.inode) is Some
            &&& fs.attr_of(f.inode) is Ok
            &&& fs.attr_of(f.inode)->Ok_0.generation == f.generation
        }),
{
    let (parent, name) = lookup_parent(&vfs.mounts, &mut vfs.dentries, path)?;
    let ino = {
        let fs = match vfs.mounts.fs_mut(parent.mount) {
            Some(f) => f,
            None => return Err(FsError::NotFound),
        };
        fs.create(parent, name.as_slice(), FileType::Regular, InodeMode::default_file())?
    };
    invalidate_dentry(&mut vfs.dentries, parent);
    let fs = match vfs.mounts.fs(ino.mount) {
        Some(f) => f,
        None => return Err(FsError::NotFound),
    };
    let attr = fs.getattr(ino)?;
    Ok(OpenFile { inode: ino, offset: 0, flags, generation: attr.generation })
}

/// How opening `path` with `flags` leaves the mounts and the cache slots,
/// and what it answers: the path is resolved, following a final symlink
/// unless `O_NOFOLLOW`, and what it names is opened (see `open_effect`); a
/// path that is not found is created with `O_CREAT` (see
/// `create_file_effect`).
pub open spec fn open_path_effect<F: FileSystem>(
    m0: MountTable<F>,
    s0: Seq<Option<Dentry>>,
    m1: MountTable<F>,
    s1: Seq<Option<Dentry>>,
    path: Seq<u8>,
    flags: OpenFlags,
    r: Result<OpenFile, FsError>,
) -> bool {
    let (pr, after) = path_lookup(m0, s0, path, flags.bits & O_NOFOLLOW != O_NOFOLLOW);
    match pr {
        Ok(res) => s1 == after && open_effect(m0, m1, res, flags, r),
        Err(e) => if e == FsError::NotFound && flags.bits & O_CREAT == O_CREAT {
            create_file_effect(m0, after, m1, s1, path, flags, r)
        } else {
            r == Err::<OpenFile, FsError>(e) && m1.entries() == m0.entries() && s1 == after
        },
    }
}

/// Opens `path`, resolved with `follow_final` unless `O_NOFOLLOW`; a missing
/// file is created with `O_CREAT`.
pub fn open_path<F: FileSystem>(vfs: &mut Vfs<F>, path: &[u8], flags: OpenFlags) -> (r: Result<OpenFile, FsError>)
    requires
        old(vfs).wf(),
    ensures
        final(vfs).wf(),
        r matches Ok(f) ==> f.offset == 0 && f.flags == flags,
        open_path_effect(old(vfs).mounts, old(vfs).dentries.slots(), final(vfs).mounts, final(vfs).dentries.slots(), path@, flags, r),
        flags.bits & O_TRUNC != O_TRUNC && flags.bits & O_CREAT != O_CREAT ==> final(vfs).mounts == old(vfs).mounts,
{
    let follow = !has_flag(flags, O_NOFOLLOW);
    match resolve_path_at(&vfs.mounts, &mut vfs.dentries, path, follow) {
        Ok(resolved) => finish_open(vfs, resolved, flags),
        Err(FsError::NotFound) => {
            if has_flag(flags, O_CREAT) {
                create_file(vfs, path, flags)
            } else {
                Err(FsError::NotFound)
            }
        },
        Err(e) => Err(e),
    }
}

/// What reading `inode` from `offset` gives while `total` of `cap` bytes are
/// in: each read asks for what is missing into a zeroed buffer, and the
/// reading stops at `cap` or at a read that brings nothing (a count beyond
/// the buffer never comes back from `read`).
pub open spec fn read_loop<F: FileSystem>(fs: F, inode: InodeId, offset: u64, total: int, cap: int) -> Result<Seq<u8>, FsError>
    decreases cap - total,
{
    if total >= cap {
        Ok(Seq::empty())
    } else {
        let want = cap - total;
        let (res, chunk) = fs.read_result(inode, offset, Seq::new(want as nat, |i: int| 0u8));
        match res {
            Err(e) => Err(e),
            Ok(n) => if n == 0 || n > want {
                Ok(Seq::empty())
            } else {
                match read_loop(fs, inode, offset.wrapping_add(n as u64), total + n, cap) {
                    Ok(rest) => Ok(chunk.subrange(0, n as int) + rest),
                    Err(e) => Err(e),
                }
            },
        }
    }
}

/// What reading the whole of `path` gives: the file it resolves to (a final
/// symlink followed), read from its start up to its size or `MAX_FILE_READ`
/// bytes, whichever is less (see `read_loop`).
#[verifier::opaque]
pub open spec fn read_path_result<F: FileSystem>(mounts: MountTable<F>, slots: Seq<Option<Dentry>>, path: Seq<u8>) -> Result<Seq<u8>, FsError> {
    match path_lookup(mounts, slots, path, true).0 {
        Err(e) => Err(e),
        Ok(res) => if res.inode.mount as int >= mounts.entries().len() {
            Err(FsError::NotFound)
        } else {
            let fs = mounts.entries()[res.inode.mount as int].fs;
            match fs.attr_of(res.inode) {
                Err(e) => Err(e),
                Ok(a) => read_loop(fs, res.inode, 0, 0, if a.size < MAX_FILE_READ { a.size as int } else { MAX_FILE_READ as int }),
            }
        },
    }
}

/// Reads a whole file, up to `MAX_FILE_READ` bytes, from its start.
pub fn read_path<F: FileSystem>(vfs: &mut Vfs<F>, path: &[u8]) -> (r: Result<Vec<u8>, FsError>)
    requires
        old(vfs).wf(),
    ensures
        final(vfs).wf(),
        r matches Ok(v) ==> v@.len() <= MAX_FILE_READ,
        final(vfs).mounts == old(vfs).mounts,
        final(vfs).dentries.slots() == path_lookup(old(vfs).mounts, old(vfs).dentries.slots(), path@, true).1,
        match read_path_result(old(vfs).mounts, old(vfs).dentries.slots(), path@) {
            Ok(bytes) => r is Ok && r->Ok_0@ == bytes,
            Err(e) => r == Err::<Vec<u8>, FsError>(e),
        },
{
    reveal(read_path_result);
    proof {
        assert(0u32 & 0x40u32 != 0x40u32 && 0u32 & 0x100u32 != 0x100u32 && 0u32 & 0x200u32 != 0x200u32) by (bit_vector);
    }
    let mut file = open_path(vfs, path, OpenFlags { bits: O_RDONLY })?;
    let fs = match vfs.mounts.fs(file.inode.mount) {
        Some(f) => f,
        None => return Err(FsError::NotFound),
    };
    let size = fs.getattr(file.inode)?.size;
    let cap: usize = if size < MAX_FILE_READ as u64 { size as usize } else { MAX_FILE_READ };
    read_all(fs, &mut file, cap)
}

/// Reads from the file offset until `cap` bytes are in or the filesystem
/// hands back nothing more.
fn read_all<F: FileSystem>(fs: &F, file: &mut OpenFile, cap: usize) -> (r: Result<Vec<u8>, FsError>)
    ensures
        r matches Ok(v) ==> v@.len() <= cap,
        match read_loop(*fs, old(file).inode, old(file).offset, 0, cap as int) {
            Ok(bytes) => r is Ok && r->Ok_0@ == bytes,
            Err(e) => r is Err && r->Err_0 == e,
        },
{
    let mut buf: Vec<u8> = Vec::new();
    let mut total: usize = 0;
    loop
        invariant
            total <= cap,
            buf@.len() == total,
            file.inode == old(file).inode,
            read_loop(*fs, old(file).inode, old(file).offset, 0, cap as int) == match read_loop(*fs, file.inode, file.offset, total as int, cap as int) {
                Ok(rest) => Ok::<Seq<u8>, FsError>(buf@ + rest),
                Err(e) => Err(e),
            },
        ensures
            total <= cap,
            buf@.len() == total,
            read_loop(*fs, old(file).inode, old(file).offset, 0, cap as int) == Ok::<Seq<u8>, FsError>(buf@),
        decreases cap - total,
    {
        if total >= cap {
            assert(buf@ + Seq::<u8>::empty() =~= buf@);
            break;
        }
        let want: usize = cap - total;
        let mut chunk: Vec<u8> = vec![0u8; want];
        assert(chunk@ =~= Seq::new(want as nat, |i: int| 0u8));
        let n = fs.read(file.inode, file.offset, &mut chunk)?;
        if n == 0 {
            assert(buf@ + Seq::<u8>::empty() =~= buf@);
            break;
        }
        let ghost before = buf@;
        let ghost got = chunk@.subrange(0, n as int);
        let ghost off0 = file.offset;
        file.offset = file.offset.wrapping_add(n as u64);
        let mut k: usize = 0;
        while k < n
            invariant
                0 <= k <= n,
                n <= chunk@.len(),
                chunk@.len() == cap - total,
                got == chunk@.subrange(0, n as int),
                buf@ == before + got.subrange(0, k as int),
            decreases n - k,
        {
            buf.push(chunk[k]);
            assert(buf@ =~= before + got.subrange(0, k + 1));
            k = k + 1;
        }
        assert(got.subrange(0, n as int) =~= got);
        proof {
            let rest = read_loop(*fs, file.inode, file.offset, total + n, cap as int);
            if let Ok(rs) = rest {
                assert(before + (got + rs) =~= (before + got) + rs);
            }
        }
        total = total + n;
    }
    Ok(buf)
}

/// How writing `data` to `path` leaves the mounts and the cache slots, and
/// what it answers: the path is opened for writing with `O_TRUNC` (and
/// `O_CREAT` when `create`), a file still not found is then created when
/// `create`, and `data` is written from offset 0 (see `write_into`).
#[verifier::opaque]
pub open spec fn write_path_effect<F: FileSystem>(
    m0: MountTable<F>,
    s0: Seq<Option<Dentry>>,
    m1: MountTable<F>,
    s1: Seq<Option<Dentry>>,
    path: Seq<u8>,
    data: Seq<u8>,
    create: bool,
    r: Result<(), FsError>,
) -> bool {
    exists|mo: MountTable<F>, so: Seq<Option<Dentry>>, fo: Result<OpenFile, FsError>|
        #[trigger] open_for_write_effect(m0, s0, mo, so, path, create, fo) && match fo {
            Ok(f) => s1 == so && write_into(mo, m1, f.inode, data, r),
            Err(e) => r == Err::<(), FsError>(e) && m1.entries() == mo.entries() && s1 == so,
        }
}

/// How opening `path` for `write_path` leaves the mounts and the cache
/// slots, and what it answers: opened with `O_WRONLY | O_TRUNC` (and
/// `O_CREAT` when `create`), then, when still not found and `create`, made.
pub open spec fn open_for_write_effect<F: FileSystem>(
    m0: MountTable<F>,
    s0: Seq<Option<Dentry>>,
    m1: MountTable<F>,
    s1: Seq<Option<Dentry>>,
    path: Seq<u8>,
    create: bool,
    r: Result<OpenFile, FsError>,
) -> bool {
    let flags = write_flags(create);
    exists|mo: MountTable<F>, so: Seq<Option<Dentry>>, fo: Result<OpenFile, FsError>|
        #[trigger] open_path_effect(m0, s0, mo, so, path, flags, fo) && match fo {
            Ok(f) => r == Ok::<OpenFile, FsError>(f) && m1.entries() == mo.entries() && s1 == so,
            Err(e) => if e == FsError::NotFound && create {
                create_file_effect(mo, so, m1, s1, path, flags, r)
            } else {
                r == Err::<OpenFile, FsError>(e) && m1.entries() == mo.entries() && s1 == so
            },
        }
}

/// The flags `write_path` opens with.
pub open spec fn write_flags(create: bool) -> OpenFlags {
    OpenFlags { bits: if create { O_WRONLY | O_CREAT | O_TRUNC } else { O_WRONLY | O_TRUNC } }
}

/// How writing `data` from offset 0 into `inode` leaves the mounts, and what
/// it answers (see `write_chain`).
pub open spec fn write_into<F: FileSystem>(before: MountTable<F>, after: MountTable<F>, inode: InodeId, data: Seq<u8>, r: Result<(), FsError>) -> bool {
    let m = inode.mount as int;
    if m >= before.entries().len() {
        r == Err::<(), FsError>(FsError::NotFound) && after.entries() == before.entries()
    } else {
        let fs2 = after.entries()[m].fs;
        &&& after.entries() == before.entries().update(m, MountPoint { fs: fs2, ..before.entries()[m] })
        &&& write_chain(before.entries()[m].fs, fs2, inode, data, 0, r)
    }
}

/// Whether `after` is `fs` once `data` was written into `inode` from index
/// `off` on, all that is left at a time, until all is in or a write takes
/// nothing; `r` is the answer (a count beyond what was handed never comes
/// back from `write`).
pub open spec fn write_chain<F: FileSystem>(fs: F, after: F, inode: InodeId, data: Seq<u8>, off: int, r: Result<(), FsError>) -> bool
    decreases data.len() - off,
{
    if off >= data.len() {
        after == fs && r is Ok
    } else {
        exists|mid: F, wr: Result<usize, FsError>|
            #[trigger] fs.write_done(mid, inode, off as u64, data.subrange(off, data.len() as int), wr) && match wr {
                Err(e) => after == mid && r == Err::<(), FsError>(e),
                Ok(n) => if n == 0 || n > data.len() - off {
                    after == mid && r is Ok
                } else {
                    write_chain(mid, after, inode, data, off + n, r)
                },
            }
    }
}

/// Writes `data` to `path` from offset 0, cutting the file to length 0
/// first; the file is created when missing and `create` is set.
pub fn write_path<F: FileSystem>(vfs: &mut Vfs<F>, path: &[u8], data: &[u8], create: bool) -> (r: Result<(), FsError>)
    requires
        old(vfs).wf(),
    ensures
        final(vfs).wf(),
        write_path_effect(old(vfs).mounts, old(vfs).dentries.slots(), final(vfs).mounts, final(vfs).dentries.slots(),
            path@, data@, create, r),
{
    reveal(write_path_effect);
    let ghost m0 = vfs.mounts;
    let ghost s0 = vfs.dentries.slots();
    let opened = open_for_write(vfs, path, create);
    let ghost mo = vfs.mounts;
    let ghost so = vfs.dentries.slots();
    assert(open_for_write_effect(m0, s0, mo, so, path@, create, opened));
    let file = match opened {
        Ok(f) => f,
        Err(e) => return Err(e),
    };
    let fs = match vfs.mounts.fs_mut(file.inode.mount) {
        Some(f) => f,
        None => return Err(FsError::NotFound),
    };
    write_all(fs, file.inode, data)
}

/// Opens `path` for `write_path`, making the file when it is missing and
/// `create` is set.
fn open_for_write<F: FileSystem>(vfs: &mut Vfs<F>, path: &[u8], create: bool) -> (r: Result<OpenFile, FsError>)
    requires
        old(vfs).wf(),
    ensures
        final(vfs).wf(),
        open_for_write_effect(old(vfs).mounts, old(vfs).dentries.slots(), final(vfs).mounts, final(vfs).dentries.slots(),
            path@, create, r),
{
    let flags = if create {
        OpenFlags { bits: O_WRONLY | O_CREAT | O_TRUNC }
    } else {
        OpenFlags { bits: O_WRONLY | O_TRUNC }
    };
    assert(flags == write_flags(create));
    let ghost m0 = vfs.mounts;
    let ghost s0 = vfs.dentries.slots();
    let opened = open_path(vfs, path, flags);
    assert(open_path_effect(m0, s0, vfs.mounts, vfs.dentries.slots(), path@, flags, opened));
    match opened {
        Ok(f) => Ok(f),
        Err(FsError::NotFound) => {
            if create {
                create_file(vfs, path, flags)
            } else {
                Err(FsError::NotFound)
            }
        },
        Err(e) => Err(e),
    }
}

/// Writes `data` from offset 0 until all is written or the filesystem
/// takes nothing more.
fn write_all<F: FileSystem>(fs: &mut F, inode: InodeId, data: &[u8]) -> (r: Result<(), FsError>)
    ensures
        write_chain(*old(fs), *final(fs), inode, data@, 0, r),
{
    let mut off: usize = 0;
    loop
        invariant_except_break
            forall|after: F, rr: Result<(), FsError>| #[trigger] write_chain(*fs, after, inode, data@, off as int, rr)
                ==> write_chain(*old(fs), after, inode, data@, 0, rr),
        invariant
            off <= data@.len(),
        ensures
            write_chain(*old(fs), *fs, inode, data@, 0, Ok::<(), FsError>(())),
        decreases data@.len() - off,
    {
        if off >= data.len() {
            assert(write_chain(*fs, *fs, inode, data@, off as int, Ok::<(), FsError>(())));
            break;
        }
        let rest = slice_from(data, off);
        let ghost before = *fs;
        assert(forall|after: F, rr: Result<(), FsError>| #[trigger] write_chain(before, after, inode, data@, off as int, rr)
            ==> write_chain(*old(fs), after, inode, data@, 0, rr));
        let res = fs.write(inode, off as u64, rest);
        let n = match res {
            Ok(n) => n,
            Err(e) => {
                assert(before.write_done(*fs, inode, off as u64, data@.subrange(off as int, data@.len() as int), res));
                assert(write_chain(before, *fs, inode, data@, off as int, Err::<(), FsError>(e)));
                return Err(e);
            },
        };
        if n == 0 {
            assert(before.write_done(*fs, inode, off as u64, data@.subrange(off as int, data@.len() as int), res));
            assert(write_chain(before, *fs, inode, data@, off as int, Ok::<(), FsError>(())));
            break;
        }
        assert forall|after: F, rr: Result<(), FsError>| #[trigger] write_chain(*fs, after, inode, data@, (off + n) as int, rr)
            implies write_chain(*old(fs), after, inode, data@, 0, rr) by {
            assert(before.write_done(*fs, inode, off as u64, data@.subrange(off as int, data@.len() as int), res));
            assert(write_chain(before, after, inode, data@, off as int, rr));
        }
        off = off + n;
    }
    Ok(())
}


fn slice_from(p: &[u8], start: usize) -> (r: &[u8])
    requires
        start <= p@.len(),
    ensures
        r@ == p@.subrange(start as int, p@.len() as int),
{
    let (_, tail) = p.split_at(start);
    tail
}

/// How making a directory at `path` leaves the mounts and the cache slots,
/// and what it answers: the directory that would hold it is resolved, the
/// directory made there (mode 0755), and the cache entries leading to that
/// directory dropped.
#[verifier::opaque]
pub open spec fn mkdir_path_effect<F: FileSystem>(
    m0: MountTable<F>,
    s0: Seq<Option<Dentry>>,
    m1: MountTable<F>,
    s1: Seq<Option<Dentry>>,
    path: Seq<u8>,
    r: Result<(), FsError>,
) -> bool {
    &&& (parent_split(path) is Err ==> r == Err::<(), FsError>(parent_split(path)->Err_0)
            && m1 == m0 && s1 == s0)
    &&& (parent_split(path) matches Ok((pl, nl)) ==> {
            let (pr, after) = path_lookup(m0, s0, parent_path(path, pl), true);
            &&& (pr matches Err(e) ==> r == Err::<(), FsError>(e) && m1 == m0
                    && s1 == after)
            &&& (pr matches Ok(res) ==> {
                let m = res.inode.mount as int;
                let name = path.subrange(path.len() - nl, path.len() as int);
                if m >= m0.entries().len() {
                    r == Err::<(), FsError>(FsError::NotFound) && m1.entries() == m0.entries()
                        && s1 == after
                } else {
                    let fs = m0.entries()[m].fs;
                    let fs2 = m1.entries()[m].fs;
                    &&& m1.entries() == m0.entries().update(m, MountPoint { fs: fs2, ..m0.entries()[m] })
                    &&& exists|fr: Result<InodeId, FsError>| #[trigger] fs.mkdir_done(fs2, res.inode, name, InodeMode { bits: 0o755 }, fr)
                        && (fr is Err ==> r == Err::<(), FsError>(fr->Err_0) && s1 == after)
                        && (fr is Ok ==> r is Ok && s1 == invalidated(after, res.inode))
                }
            })
        })
}

/// Makes a directory (mode 0755) at `path`.
pub fn mkdir_path<F: FileSystem>(vfs: &mut Vfs<F>, path: &[u8]) -> (r: Result<(), FsError>)
    requires
        old(vfs).wf(),
    ensures
        final(vfs).wf(),
        mkdir_path_effect(old(vfs).mounts, old(vfs).dentries.slots(), final(vfs).mounts, final(vfs).dentries.slots(), path@, r),
{
    reveal(mkdir_path_effect);
    let (parent, name) = lookup_parent(&vfs.mounts, &mut vfs.dentries, path)?;
    let fs = match vfs.mounts.fs_mut(parent.mount) {
        Some(f) => f,
        None => return Err(FsError::NotFound),
    };
    fs.mkdir(parent, name.as_slice(), InodeMode::default_dir())?;
    invalidate_dentry(&mut vfs.dentries, parent);
    Ok(())
}

/// How making a symlink at `link` to `target` leaves the mounts and the cache
/// slots, and what it answers: the directory that would hold it is resolved,
/// the link made there (mode 0644), and the cache entries leading to that
/// directory dropped.
#[verifier::opaque]
pub open spec fn symlink_path_effect<F: FileSystem>(
    m0: MountTable<F>,
    s0: Seq<Option<Dentry>>,
    m1: MountTable<F>,
    s1: Seq<Option<Dentry>>,
    link: Seq<u8>,
    target: Seq<u8>,
    r: Result<(), FsError>,
) -> bool {
    &&& (parent_split(link) is Err ==> r == Err::<(), FsError>(parent_split(link)->Err_0)
            && m1 == m0 && s1 == s0)
    &&& (parent_split(link) matches Ok((pl, nl)) ==> {
            let (pr, after) = path_lookup(m0, s0, parent_path(link, pl), true);
            &&& (pr matches Err(e) ==> r == Err::<(), FsError>(e) && m1 == m0
                    && s1 == after)
            &&& (pr matches Ok(res) ==> {
                let m = res.inode.mount as int;
                let name = link.subrange(link.len() - nl, link.len() as int);
                if m >= m0.entries().len() {
                    r == Err::<(), FsError>(FsError::NotFound) && m1.entries() == m0.entries()
                        && s1 == after
                } else {
                    let fs = m0.entries()[m].fs;
                    let fs2 = m1.entries()[m].fs;
                    &&& m1.entries() == m0.entries().update(m, MountPoint { fs: fs2, ..m0.entries()[m] })
                    &&& exists|fr: Result<InodeId, FsError>| #[trigger] fs.symlink_done(fs2, res.inode, name, target, InodeMode { bits: 0o644 }, fr)
                        && (fr is Err ==> r == Err::<(), FsError>(fr->Err_0) && s1 == after)
                        && (fr is Ok ==> r is Ok && s1 == invalidated(after, res.inode))
                }
            })
        })
}

/// Makes a symlink at `link` pointing at `target` (mode 0644).
pub fn symlink_path<F: FileSystem>(vfs: &mut Vfs<F>, link: &[u8], target: &[u8]) -> (r: Result<(), FsError>)
    requires
        old(vfs).wf(),
    ensures
        final(vfs).wf(),
        symlink_path_effect(old(vfs).mounts, old(vfs).dentries.slots(), final(vfs).mounts, final(vfs).dentries.slots(), link@, target@, r),
{
    reveal(symlink_path_effect);
    let (parent, name) = lookup_parent(&vfs.mounts, &mut vfs.dentries, link)?;
    let fs = match vfs.mounts.fs_mut(parent.mount) {
        Some(f) => f,
        None => return Err(FsError::NotFound),
    };
    fs.symlink(parent, name.as_slice(), target, InodeMode::default_file())?;
    invalidate_dentry(&mut vfs.dentries, parent);
    Ok(())
}

} // verus!
