//! The mount table: which filesystem answers for which path prefix.

use vstd::prelude::*;
use crate::fs::vfs::inode::InodeId;
use crate::fs::vfs::superblock::FileSystem;

verus! {

pub const MAX_MOUNTS: usize = 16;
/// Mount paths are kept up to this many bytes.
pub const MOUNT_PATH_MAX: usize = 255;

pub struct MountPoint<F> {
    pub id: u32,
    pub path: Vec<u8>,
    pub fs: F,
    pub root: InodeId,
}

/// Mounts in registration order; the mount with id `i` sits at index `i`.
pub struct MountTable<F> {
    mounts: Vec<MountPoint<F>>,
    root_mount: u32,
}

/// `prefix` covers `path` up to a component boundary.
pub open spec fn covers(prefix: Seq<u8>, path: Seq<u8>) -> bool {
    &&& prefix.len() <= path.len()
    &&& path.subrange(0, prefix.len() as int) == prefix
    &&& (path.len() == prefix.len() || path[prefix.len() as int] == 0x2fu8)
}

/// The choice after considering one more mount: an empty mount path takes
/// every absolute (or empty) path; another takes the path when it covers it
/// and is at least as long as the best so far.
pub open spec fn mount_step(best: (u32, int), id: u32, mpath: Seq<u8>, path: Seq<u8>) -> (u32, int) {
    if mpath.len() == 0 {
        if path.len() == 0 || path[0] == 0x2fu8 {
            (id, 0)
        } else {
            best
        }
    } else if covers(mpath, path) && mpath.len() >= best.1 {
        (id, mpath.len() as int)
    } else {
        best
    }
}

impl<F: FileSystem> MountTable<F> {
    pub closed spec fn entries(&self) -> Seq<MountPoint<F>> {
        self.mounts@
    }

    pub closed spec fn root_id(&self) -> u32 {
        self.root_mount
    }

    pub open spec fn wf(&self) -> bool {
        &&& self.entries().len() <= MAX_MOUNTS
        &&& self.root_id() == 0
        &&& forall|i: int| 0 <= i < self.entries().len() ==> {
            &&& (#[trigger] self.entries()[i]).id == i
            &&& self.entries()[i].path@.len() <= MOUNT_PATH_MAX
        }
    }

    /// The (mount id, prefix length) that `find_mount_for_path` settles on
    /// after the first `n` mounts.
    pub open spec fn best_after(&self, path: Seq<u8>, n: int) -> (u32, int)
        decreases n,
    {
        if n <= 0 {
            (0, 0)
        } else {
            let m = self.entries()[n - 1];
            mount_step(self.best_after(path, n - 1), m.id, m.path@, path)
        }
    }

    pub fn new() -> (r: Self)
        ensures
            r.wf(),
            r.entries().len() == 0,
    {
        MountTable { mounts: Vec::new(), root_mount: 0 }
    }

    pub fn count(&self) -> (r: usize)
        ensures
            r == self.entries().len(),
    {
        self.mounts.len()
    }

    /// Adds a mount at `path` (kept up to 255 bytes); its id is the number of
    /// mounts before it. Refused once the table holds `MAX_MOUNTS`.
    pub fn register(&mut self, path: &[u8], fs: F) -> (r: Result<u32, ()>)
        requires
            old(self).wf(),
        ensures
            final(self).wf(),
            old(self).entries().len() >= MAX_MOUNTS ==> r is Err && final(self).entries() == old(self).entries(),
            old(self).entries().len() < MAX_MOUNTS ==> {
                let id = old(self).entries().len();
                let m = final(self).entries()[id as int];
                &&& r == Ok::<u32, ()>(id as u32)
                &&& final(self).entries().len() == id + 1
                &&& final(self).entries().subrange(0, id as int) == old(self).entries()
                &&& m.id == id
                &&& m.fs == fs
                &&& m.path@ == path@.subrange(0, if path@.len() < 255 { path@.len() as int } else { 255 })
                &&& m.root == (InodeId { mount: id as u32, ino: fs.root_spec().ino })
            },
    {
        let id = self.mounts.len();
        if id >= MAX_MOUNTS {
            return Err(());
        }
        let root = fs.root();
        let len = if path.len() < MOUNT_PATH_MAX { path.len() } else { MOUNT_PATH_MAX };
        let mut p: Vec<u8> = Vec::new();
        let mut i: usize = 0;
        while i < len
            invariant
                0 <= i <= len,
                len <= path@.len(),
                p@ == path@.subrange(0, i as int),
            decreases len - i,
        {
            p.push(path[i]);
            assert(p@ =~= path@.subrange(0, i + 1));
            i = i + 1;
        }
        let mp = MountPoint { id: id as u32, path: p, fs, root: InodeId::new(id as u32, root.ino) };
        self.mounts.push(mp);
        if id == 0 {
            self.root_mount = 0;
        }
        proof {
            assert(self.entries().subrange(0, id as int) =~= old(self).entries());
        }
        Ok(id as u32)
    }

    /// Calls `f` on the mount with id `mount_id`, if there is one.
    pub fn with_mount<R, G: FnOnce(&MountPoint<F>) -> R>(&self, mount_id: u32, f: G) -> (r: Option<R>)
        requires
            self.wf(),
            (mount_id as int) < self.entries().len() ==> f.requires((&self.entries()[mount_id as int],)),
        ensures
            (mount_id as int) < self.entries().len() <==> r is Some,
            r matches Some(v) ==> f.ensures((&self.entries()[mount_id as int],), v),
    {
        if (mount_id as usize) < self.mounts.len() {
            Some(f(&self.mounts[mount_id as usize]))
        } else {
            None
        }
    }

    pub fn root_mount(&self) -> (r: u32)
        requires
            self.wf(),
        ensures
            r == 0,
    {
        self.root_mount
    }

    /// The mount that answers for `path` and how many bytes of the path its
    /// mount path covers.
    pub fn find_mount_for_path(&self, path: &[u8]) -> (r: (u32, usize))
        requires
            self.wf(),
        ensures
            (r.0, r.1 as int) == self.best_after(path@, self.entries().len() as int),
    {
        let mut best: (u32, usize) = (0, 0);
        let mut i: usize = 0;
        while i < self.mounts.len()
            invariant
                0 <= i <= self.entries().len(),
                self.wf(),
                (best.0, best.1 as int) == self.best_after(path@, i as int),
                best.1 <= MOUNT_PATH_MAX,
            decreases self.entries().len() - i,
        {
            let mp = &self.mounts[i];
            let plen = mp.path.len();
            assert(mp.id == i);
            if plen == 0 {
                if path.len() == 0 || path[0] == 0x2f {
                    best = (mp.id, 0);
                }
            } else if path.len() >= plen && Self::starts_with(path, &mp.path) {
                let boundary = path.len() == plen || path[plen] == 0x2f;
                if boundary && plen >= best.1 {
                    best = (mp.id, plen);
                }
            }
            i = i + 1;
        }
        best
    }

    fn starts_with(path: &[u8], prefix: &Vec<u8>) -> (r: bool)
        requires
            prefix@.len() <= path@.len(),
        ensures
            r == (path@.subrange(0, prefix@.len() as int) == prefix@),
    {
        let n = prefix.len();
        let mut k: usize = 0;
        while k < n
            invariant
                0 <= k <= n,
                n == prefix@.len(),
                n <= path@.len(),
                path@.subrange(0, k as int) == prefix@.subrange(0, k as int),
            decreases n - k,
        {
            if path[k] != prefix[k] {
                assert(path@.subrange(0, n as int)[k as int] != prefix@[k as int]);
                return false;
            }
            assert(path@.subrange(0, k + 1) =~= path@.subrange(0, k as int).push(path@[k as int]));
            assert(prefix@.subrange(0, k + 1) =~= prefix@.subrange(0, k as int).push(prefix@[k as int]));
            k = k + 1;
        }
        assert(prefix@.subrange(0, n as int) =~= prefix@);
        true
    }

    /// The filesystem mounted with id `mount_id`.
    pub fn fs(&self, mount_id: u32) -> (r: Option<&F>)
        requires
            self.wf(),
        ensures
            (mount_id as int) < self.entries().len() ==> r == Some(&self.entries()[mount_id as int].fs),
            (mount_id as int) >= self.entries().len() ==> r is None,
    {
        if (mount_id as usize) < self.mounts.len() {
            Some(&self.mounts[mount_id as usize].fs)
        } else {
            None
        }
    }

    /// Mutable access to the filesystem mounted with id `mount_id`.
    pub fn fs_mut(&mut self, mount_id: u32) -> (r: Option<&mut F>)
        requires
            old(self).wf(),
        ensures
            (mount_id as int) >= old(self).entries().len() ==> r is None && final(self).entries() == old(self).entries(),
            (mount_id as int) < old(self).entries().len() ==> {
                &&& r matches Some(fr)
                &&& *fr == old(self).entries()[mount_id as int].fs
                &&& final(self).entries() == old(self).entries().update(mount_id as int, MountPoint {
                        fs: *final(fr),
                        ..old(self).entries()[mount_id as int]
                    })
            },
            final(self).root_id() == old(self).root_id(),
            final(self).wf(),
    {
        if (mount_id as usize) < self.mounts.len() {
            let mp = &mut self.mounts[mount_id as usize];
            Some(&mut mp.fs)
        } else {
            None
        }
    }
}

/// The mount chosen for a path covers it at a component boundary (or is the
/// root mount taking an absolute path), and no covering mount has a longer
/// mount path. Holds when every mount but the first has a non-empty path.
pub proof fn lemma_longest_prefix<F: FileSystem>(table: MountTable<F>, path: Seq<u8>, n: int)
    requires
        table.wf(),
        0 <= n <= table.entries().len(),
        forall|i: int| 0 < i < table.entries().len() ==> (#[trigger] table.entries()[i]).path@.len() > 0,
    ensures
        ({
            let (id, len) = table.best_after(path, n);
            &&& 0 <= len
            &&& (len > 0 ==> (id as int) < n && covers(table.entries()[id as int].path@, path)
                    && table.entries()[id as int].path@.len() == len)
            &&& forall|i: int| 0 <= i < n && covers(#[trigger] table.entries()[i].path@, path)
                    && table.entries()[i].path@.len() > 0 ==> table.entries()[i].path@.len() <= len
        }),
    decreases n,
{
    if n > 0 {
        lemma_longest_prefix(table, path, n - 1);
    }
}

} // verus!
