//! Pathname resolution with symlink following and generation checks.
//!
//! A path is copied into kernel memory once; each component resolved records
//! the inode generation seen, and mutating operations revalidate it before use.

use vstd::prelude::*;
use crate::fs::vfs::dentry::{
    answers, cached, first_taking, lemma_cached_answers, lemma_first_taking_props, slot_answers, spec_hash, Dentry, DentryCache,
    DENTRY_NAME_LEN, DENTRY_SLOTS,
};
use crate::fs::vfs::inode::{FileType, InodeAttr, InodeId};
use crate::fs::vfs::mount::{covers, MountTable};
use crate::fs::vfs::superblock::{FileSystem, FsError};

verus! {

pub const MAX_SYMLINK_DEPTH: usize = 8;
pub const MAX_PATH: usize = 4096;
/// Longest final component `lookup_parent` accepts.
pub const MAX_NAME: usize = 255;

pub struct PathResolution {
    pub path: Vec<u8>,
}

#[derive(Clone, Copy, Debug)]
pub struct ResolvedInode {
    pub inode: InodeId,
    pub attr: InodeAttr,
}

impl PathResolution {
    /// Takes one copy of `path`: empty paths and paths of `MAX_PATH` bytes or
    /// more are refused.
    pub fn from_kernel_path(path: &[u8]) -> (r: Result<Self, FsError>)
        ensures
            (path@.len() == 0 || path@.len() >= MAX_PATH) ==> r is Err && r->Err_0 == FsError::Invalid,
            (0 < path@.len() < MAX_PATH) ==> r is Ok && r->Ok_0.path@ == path@,
    {
        if path.len() == 0 || path.len() >= MAX_PATH {
            return Err(FsError::Invalid);
        }
        let mut buf: Vec<u8> = Vec::new();
        let mut i: usize = 0;
        while i < path.len()
            invariant
                0 <= i <= path@.len(),
                buf@ == path@.subrange(0, i as int),
            decreases path@.len() - i,
        {
            buf.push(path[i]);
            assert(buf@ =~= path@.subrange(0, i + 1));
            i = i + 1;
        }
        assert(path@.subrange(0, path@.len() as int) =~= path@);
        Ok(PathResolution { path: buf })
    }

    pub fn as_path(&self) -> (r: &[u8])
        ensures
            r@ == self.path@,
    {
        self.path.as_slice()
    }
}

/// The first index at or after `pos` that is not a slash.
pub open spec fn skip_slashes(p: Seq<u8>, pos: int) -> int
    decreases p.len() - pos,
{
    if 0 <= pos < p.len() && p[pos] == 0x2fu8 {
        skip_slashes(p, pos + 1)
    } else {
        pos
    }
}

/// The first slash at or after `pos`, or the end of the path.
pub open spec fn component_end(p: Seq<u8>, pos: int) -> int
    decreases p.len() - pos,
{
    if 0 <= pos < p.len() && p[pos] != 0x2fu8 {
        component_end(p, pos + 1)
    } else {
        pos
    }
}

/// Skipping slashes stays in the path and stops on a byte that is no slash.
pub proof fn lemma_skip_bounds(p: Seq<u8>, pos: int)
    requires
        0 <= pos <= p.len(),
    ensures
        pos <= skip_slashes(p, pos) <= p.len(),
        skip_slashes(p, pos) < p.len() ==> p[skip_slashes(p, pos)] != 0x2fu8,
    decreases p.len() - pos,
{
    if pos < p.len() && p[pos] == 0x2fu8 {
        lemma_skip_bounds(p, pos + 1);
    }
}

/// A component ends in the path, on a slash or at the end.
pub proof fn lemma_end_bounds(p: Seq<u8>, pos: int)
    requires
        0 <= pos <= p.len(),
    ensures
        pos <= component_end(p, pos) <= p.len(),
        component_end(p, pos) < p.len() ==> p[component_end(p, pos)] == 0x2fu8,
    decreases p.len() - pos,
{
    if pos < p.len() && p[pos] != 0x2fu8 {
        lemma_end_bounds(p, pos + 1);
    }
}

/// The next component at or after `pos`: its start and end.
pub fn next_component(p: &[u8], pos: usize) -> (r: (usize, usize))
    requires
        pos <= p@.len(),
    ensures
        r.0 == skip_slashes(p@, pos as int),
        r.1 == component_end(p@, r.0 as int),
        pos <= r.0 <= r.1 <= p@.len(),
        r.0 < p@.len() ==> r.0 < r.1,
{
    let mut s = pos;
    while s < p.len() && p[s] == 0x2f
        invariant
            pos <= s <= p@.len(),
            skip_slashes(p@, s as int) == skip_slashes(p@, pos as int),
        decreases p@.len() - s,
    {
        s = s + 1;
    }
    let mut e = s;
    while e < p.len() && p[e] != 0x2f
        invariant
            s <= e <= p@.len(),
            component_end(p@, e as int) == component_end(p@, s as int),
        decreases p@.len() - e,
    {
        e = e + 1;
    }
    (s, e)
}

/// A cache entry recording that `name` under `parent` is `inode` at `generation`;
/// the name is kept up to `DENTRY_NAME_LEN` bytes, zero padded.
pub open spec fn entry_for(d: Dentry, parent: InodeId, name: Seq<u8>, inode: InodeId, generation: u64) -> bool {
    let n = if name.len() < DENTRY_NAME_LEN { name.len() as int } else { DENTRY_NAME_LEN as int };
    &&& d.parent == parent
    &&& d.name_hash == spec_hash(parent, name)
    &&& d.name_len as int == n
    &&& d.stored_name() == name.subrange(0, n)
    &&& forall|i: int| n <= i < DENTRY_NAME_LEN ==> #[trigger] d.name@[i] == 0
    &&& d.inode == inode
    &&& d.generation == generation
}

/// The name array of an entry: the first `n` bytes of `name`, then zeros.
pub open spec fn name_bytes(name: Seq<u8>, n: nat) -> [u8; 64]
    decreases n,
{
    if n == 0 {
        vstd::array::spec_array_fill_for_copy_type::<u8, 64>(0u8)
    } else {
        vstd::array::spec_array_update(name_bytes(name, (n - 1) as nat), n - 1, name[n - 1])
    }
}

proof fn lemma_name_bytes(name: Seq<u8>, n: nat)
    requires
        n <= DENTRY_NAME_LEN,
        n <= name.len(),
    ensures
        forall|j: int| 0 <= j < DENTRY_NAME_LEN ==> #[trigger] name_bytes(name, n)@[j] == if j < n { name[j] } else { 0u8 },
    decreases n,
{
    if n == 0 {
        let a = vstd::array::spec_array_fill_for_copy_type::<u8, 64>(0u8);
        assert(name_bytes(name, n) == a);
        assert forall|j: int| 0 <= j < DENTRY_NAME_LEN implies #[trigger] name_bytes(name, n)@[j] == 0u8 by {
            assert(a@[j] == 0u8);
        }
    } else {
        lemma_name_bytes(name, (n - 1) as nat);
        let prev = name_bytes(name, (n - 1) as nat);
        let a = vstd::array::spec_array_update(prev, n - 1, name[n - 1]);
        assert(name_bytes(name, n) == a);
        assert(a@ == prev@.update(n - 1, name[n - 1]));
    }
}

/// The cache entry for `name` under `parent`, recording `inode` at `generation`.
pub open spec fn entry_of(parent: InodeId, name: Seq<u8>, inode: InodeId, generation: u64) -> Dentry {
    let n: nat = if name.len() < DENTRY_NAME_LEN { name.len() } else { DENTRY_NAME_LEN as nat };
    Dentry {
        parent,
        name_hash: spec_hash(parent, name),
        name_len: n as u8,
        name: name_bytes(name, n),
        inode,
        generation,
    }
}

/// `entry_of` is an entry `entry_for` describes.
pub proof fn lemma_entry_of(parent: InodeId, name: Seq<u8>, inode: InodeId, generation: u64)
    ensures
        entry_for(entry_of(parent, name, inode, generation), parent, name, inode, generation),
{
    let d = entry_of(parent, name, inode, generation);
    let n: nat = if name.len() < DENTRY_NAME_LEN { name.len() } else { DENTRY_NAME_LEN as nat };
    lemma_name_bytes(name, n);
    assert(d.stored_name() =~= name.subrange(0, n as int));
}

/// `entry_for` describes one entry only.
pub proof fn lemma_entry_unique(d1: Dentry, d2: Dentry, parent: InodeId, name: Seq<u8>, inode: InodeId, generation: u64)
    requires
        entry_for(d1, parent, name, inode, generation),
        entry_for(d2, parent, name, inode, generation),
    ensures
        d1 == d2,
{
    let n = d1.name_len as int;
    assert forall|i: int| 0 <= i < DENTRY_NAME_LEN implies d1.name[i] == d2.name[i] by {
        if i < n {
            assert(d1.stored_name()[i] == d2.stored_name()[i]);
        } else {
            assert(d1.name@[i] == 0 && d2.name@[i] == 0);
        }
    }
    assert(d1.name =~= d2.name);
}

/// The slots after `insert(d)`.
pub open spec fn inserted(before: Seq<Option<Dentry>>, d: Dentry) -> Seq<Option<Dentry>> {
    match first_taking(before, d) {
        Some(k) => before.update(k, Some(d)),
        None => before,
    }
}

/// The slots after `invalidate_inode(inode)`.
pub open spec fn invalidated(before: Seq<Option<Dentry>>, inode: InodeId) -> Seq<Option<Dentry>> {
    Seq::new(before.len(), |i: int| match before[i] {
        Some(e) => if e.inode == inode { None } else { Some(e) },
        None => None::<Dentry>,
    })
}

/// A lookup followed by `getattr` of what it found.
pub open spec fn fresh_lookup<F: FileSystem>(fs: F, dir: InodeId, name: Seq<u8>) -> Result<(InodeId, InodeAttr), FsError> {
    match fs.child_of(dir, name) {
        Err(e) => Err(e),
        Ok(c) => match fs.attr_of(c) {
            Err(e) => Err(e),
            Ok(a) => Ok((c, a)),
        },
    }
}

/// What `lookup_component` answers for `name` in `current`, and the cache
/// slots it leaves: a cached entry whose inode still has the recorded
/// generation answers at once; a stale one is dropped with every entry for
/// its inode and `name` is looked up again under that inode; on a miss the
/// filesystem answers and a found inode is cached.
#[verifier::opaque]
pub open spec fn lookup_step<F: FileSystem>(fs: F, slots: Seq<Option<Dentry>>, current: InodeId, name: Seq<u8>)
    -> (Result<(InodeId, InodeAttr), FsError>, Seq<Option<Dentry>>)
{
    match cached(slots, current, name) {
        None => match fresh_lookup(fs, current, name) {
            Ok((c, a)) => (Ok((c, a)), inserted(slots, entry_of(current, name, c, a.generation))),
            Err(e) => (Err(e), slots),
        },
        Some(d) => match fs.attr_of(d.inode) {
            Err(e) => (Err(e), slots),
            Ok(a) => if a.generation == d.generation {
                (Ok((d.inode, a)), slots)
            } else {
                (fresh_lookup(fs, d.inode, name), invalidated(slots, d.inode))
            },
        },
    }
}

/// Every cached entry agrees with `fs`: its name leads to its inode, whose
/// generation is the one recorded.
pub open spec fn coherent<F: FileSystem>(slots: Seq<Option<Dentry>>, fs: F) -> bool {
    forall|i: int| 0 <= i < slots.len() && (#[trigger] slots[i]) is Some ==> {
        let e = slots[i].unwrap();
        &&& fs.child_of(e.parent, e.stored_name()) == Ok::<InodeId, FsError>(e.inode)
        &&& fs.attr_of(e.inode) is Ok
        &&& fs.attr_of(e.inode)->Ok_0.generation == e.generation
    }
}

fn make_entry(parent: InodeId, name: &[u8], inode: InodeId, generation: u64) -> (d: Dentry)
    ensures
        entry_for(d, parent, name@, inode, generation),
        d.name_len <= DENTRY_NAME_LEN,
{
    let n: usize = if name.len() < DENTRY_NAME_LEN { name.len() } else { DENTRY_NAME_LEN };
    let mut buf = [0u8; 64];
    let mut i: usize = 0;
    while i < n
        invariant
            0 <= i <= n,
            n <= DENTRY_NAME_LEN,
            n <= name@.len(),
            buf@.len() == DENTRY_NAME_LEN,
            forall|j: int| 0 <= j < i ==> #[trigger] buf@[j] == name@[j],
            forall|j: int| i <= j < DENTRY_NAME_LEN ==> #[trigger] buf@[j] == 0,
        decreases n - i,
    {
        buf[i] = name[i];
        i = i + 1;
    }
    let d = Dentry {
        parent,
        name_hash: DentryCache::hash(parent, name),
        name_len: n as u8,
        name: buf,
        inode,
        generation,
    };
    assert(d.stored_name() =~= name@.subrange(0, n as int));
    d
}

/// Resolves one component `name` in directory `current` through the dentry
/// cache. A cached entry is used while its inode's generation is the one it
/// recorded; a stale entry is dropped and `name` is looked up again, under
/// the inode the entry named. On a miss the filesystem is asked and the
/// answer cached. With a cache that agrees with `fs`, the answer is a plain
/// lookup, and the cache keeps agreeing for names that fit an entry.
pub fn lookup_component<F: FileSystem>(fs: &F, cache: &mut DentryCache, current: InodeId, name: &[u8]) -> (r: Result<(InodeId, InodeAttr), FsError>)
    requires
        old(cache).wf(),
    ensures
        final(cache).wf(),
        r matches Ok((c, a)) ==> fs.attr_of(c) == Ok::<InodeAttr, FsError>(a),
        (r, final(cache).slots()) == lookup_step(*fs, old(cache).slots(), current, name@),
        coherent(old(cache).slots(), *fs) ==> r == fresh_lookup(*fs, current, name@),
        coherent(old(cache).slots(), *fs) && name@.len() <= DENTRY_NAME_LEN ==> coherent(final(cache).slots(), *fs),
{
    reveal(lookup_step);
    match cache.get(current, name) {
        Some(dentry) => {
            let c = dentry.inode;
            let attr = fs.getattr(c)?;
            if attr.generation != dentry.generation {
                cache.invalidate_inode(c);
                proof {
                    assert(cache.slots() =~= invalidated(old(cache).slots(), c));
                }
                let c2 = fs.lookup(c, name)?;
                let a2 = fs.getattr(c2)?;
                Ok((c2, a2))
            } else {
                proof {
                    if coherent(old(cache).slots(), *fs) {
                        let k = choose|k: int| 0 <= k < DENTRY_SLOTS && old(cache).slots()[k] == Some(dentry) && answers(dentry, current, name@)
                            && forall|j: int| 0 <= j < k ==> !slot_answers(#[trigger] old(cache).slots()[j], current, name@);
                        assert(old(cache).slots()[k] is Some);
                    }
                }
                Ok((c, attr))
            }
        },
        None => {
            let c = fs.lookup(current, name)?;
            let attr = fs.getattr(c)?;
            let d = make_entry(current, name, c, attr.generation);
            cache.insert(d);
            proof {
                assert(entry_for(d, current, name@, c, attr.generation));
                lemma_entry_of(current, name@, c, attr.generation);
                lemma_entry_unique(d, entry_of(current, name@, c, attr.generation), current, name@, c, attr.generation);
                assert(cache.slots() == inserted(old(cache).slots(), d));
                if coherent(old(cache).slots(), *fs) && name@.len() <= DENTRY_NAME_LEN {
                    assert(name@.subrange(0, name@.len() as int) =~= name@);
                    assert forall|i: int| 0 <= i < cache.slots().len() && (#[trigger] cache.slots()[i]) is Some implies {
                        let e = cache.slots()[i].unwrap();
                        &&& fs.child_of(e.parent, e.stored_name()) == Ok::<InodeId, FsError>(e.inode)
                        &&& fs.attr_of(e.inode) is Ok
                        &&& fs.attr_of(e.inode)->Ok_0.generation == e.generation
                    } by {
                        match first_taking(old(cache).slots(), d) {
                            Some(k) => {
                                lemma_first_taking_props(old(cache).slots(), d);
                                if i == k {
                                    assert(cache.slots()[i] == Some(d));
                                } else {
                                    assert(cache.slots()[i] == old(cache).slots()[i]);
                                    assert(old(cache).slots()[i] is Some);
                                }
                            },
                            None => {
                                assert(old(cache).slots()[i] is Some);
                            },
                        }
                    }
                }
            }
            Ok((c, attr))
        },
    }
}

/// `res` carries the attributes that one of the mounted filesystems gives its inode.
pub open spec fn attr_in_table<F: FileSystem>(mounts: MountTable<F>, res: ResolvedInode) -> bool {
    exists|k: int| #![trigger mounts.entries()[k]] 0 <= k < mounts.entries().len()
        && mounts.entries()[k].fs.attr_of(res.inode) == Ok::<InodeAttr, FsError>(res.attr)
}

/// What resolving `path` answers, and the cache slots it leaves: the mount
/// whose path is the longest prefix of `path` is entered at its root, and the
/// rest of `path` is walked from there (see `walk_spec`).
pub open spec fn resolve_spec<F: FileSystem>(
    mounts: MountTable<F>,
    slots: Seq<Option<Dentry>>,
    path: Seq<u8>,
    follow_final: bool,
    depth: nat,
) -> (Result<ResolvedInode, FsError>, Seq<Option<Dentry>>)
    decreases MAX_SYMLINK_DEPTH - depth, path.len() + 1,
{
    let (mid, skip) = mounts.best_after(path, mounts.entries().len() as int);
    if mid as int >= mounts.entries().len() {
        (Err(FsError::NotFound), slots)
    } else {
        let fs = mounts.entries()[mid as int].fs;
        let root = InodeId { mount: mid, ino: fs.root_spec().ino };
        match fs.attr_of(root) {
            Err(e) => (Err(e), slots),
            Ok(a) => {
                let pos = if 0 <= skip < path.len() { skip } else { path.len() as int };
                let first = skip_slashes(path, pos);
                if first >= path.len() {
                    (Ok(ResolvedInode { inode: root, attr: a }), slots)
                } else {
                    proof {
                        lemma_skip_bounds(path, pos);
                    }
                    walk_spec(mounts, mid, slots, path, first, root, a, follow_final, depth)
                }
            },
        }
    }
}

/// The path a symlink met at the component ending at `end` leads on to:
/// its target, then what follows the component in `path`.
pub open spec fn link_continuation(target: Seq<u8>, path: Seq<u8>, end: int) -> Seq<u8> {
    target + path.subrange(end, path.len() as int)
}

/// Walks `path` from the component starting at `start`, in mount `mid`,
/// searching the directory `current` (with attributes `attr`) for it; a
/// `current` that is no directory is `NotDir`. The component is looked up
/// with `lookup_step`. A symlink found there is followed when more
/// components come after it, and when it is the last one only with
/// `follow_final`: one level deeper, up to `MAX_SYMLINK_DEPTH` levels, the
/// walk goes on along its target followed by the rest of the path; an
/// absolute target is resolved from the mount table, a relative one from
/// the directory that holds the link, and an empty one is `NotFound`.
pub open spec fn walk_spec<F: FileSystem>(
    mounts: MountTable<F>,
    mid: u32,
    slots: Seq<Option<Dentry>>,
    path: Seq<u8>,
    start: int,
    current: InodeId,
    attr: InodeAttr,
    follow_final: bool,
    depth: nat,
) -> (Result<ResolvedInode, FsError>, Seq<Option<Dentry>>)
    decreases MAX_SYMLINK_DEPTH - depth, path.len() - start,
    when 0 <= start < path.len()
{
    let end = component_end(path, start);
    let next = skip_slashes(path, end);
    let is_last = next >= path.len();
    let fs = mounts.entries()[mid as int].fs;
    if attr.file_type != FileType::Directory {
        (Err(FsError::NotDir), slots)
    } else {
        let (r, after) = lookup_step(fs, slots, current, path.subrange(start, end));
        match r {
            Err(e) => (Err(e), after),
            Ok((c, a)) => if a.file_type == FileType::Symlink && (follow_final || !is_last) {
                if depth >= MAX_SYMLINK_DEPTH {
                    (Err(FsError::TooManyLinks), after)
                } else {
                    match fs.link_of(c) {
                        Err(e) => (Err(e), after),
                        Ok(target) => if target.len() == 0 {
                            (Err(FsError::NotFound), after)
                        } else if target[0] == 0x2fu8 {
                            resolve_spec(mounts, after, link_continuation(target, path, end), follow_final, depth + 1)
                        } else {
                            walk_spec(mounts, mid, after, link_continuation(target, path, end), 0, current, attr, follow_final, depth + 1)
                        },
                    }
                }
            } else if is_last {
                (Ok(ResolvedInode { inode: c, attr: a }), after)
            } else {
                proof {
                    lemma_end_bounds(path, start);
                    lemma_skip_bounds(path, end);
                }
                walk_spec(mounts, mid, after, path, next, c, a, follow_final, depth)
            },
        }
    }
}

/// Each cached entry agrees with the filesystem mounted under its parent's
/// mount id: its name leads there to its inode, whose generation is the one
/// recorded.
#[verifier::opaque]
pub open spec fn cache_agrees<F: FileSystem>(slots: Seq<Option<Dentry>>, mounts: MountTable<F>) -> bool {
    forall|i: int| 0 <= i < slots.len() && (#[trigger] slots[i]) is Some ==> {
        let e = slots[i].unwrap();
        let fs = mounts.entries()[e.parent.mount as int].fs;
        &&& (e.parent.mount as int) < mounts.entries().len()
        &&& fs.child_of(e.parent, e.stored_name()) == Ok::<InodeId, FsError>(e.inode)
        &&& fs.attr_of(e.inode) is Ok
        &&& fs.attr_of(e.inode)->Ok_0.generation == e.generation
    }
}

/// Each mounted filesystem finds children in the mount of the directory
/// searched, and finds no name longer than a cache entry holds.
#[verifier::opaque]
pub open spec fn mounts_closed<F: FileSystem>(mounts: MountTable<F>) -> bool {
    forall|k: int, dir: InodeId, name: Seq<u8>|
        0 <= k < mounts.entries().len() && (#[trigger] mounts.entries()[k].fs.child_of(dir, name)) is Ok ==> {
            &&& mounts.entries()[k].fs.child_of(dir, name)->Ok_0.mount == dir.mount
            &&& name.len() <= DENTRY_NAME_LEN
        }
}

/// A cached entry that answers a lookup, in a cache that agrees with the
/// mounted filesystems, is what the filesystem answers.
proof fn lemma_hit_agrees<F: FileSystem>(mounts: MountTable<F>, slots: Seq<Option<Dentry>>, current: InodeId, name: Seq<u8>)
    requires
        cache_agrees(slots, mounts),
        cached(slots, current, name) is Some,
    ensures
        ({
            let d = cached(slots, current, name)->Some_0;
            let fs = mounts.entries()[current.mount as int].fs;
            &&& (current.mount as int) < mounts.entries().len()
            &&& fs.child_of(current, name) == Ok::<InodeId, FsError>(d.inode)
            &&& fs.attr_of(d.inode) is Ok
            &&& fs.attr_of(d.inode)->Ok_0.generation == d.generation
        }),
{
    reveal(cache_agrees);
    lemma_cached_answers(slots, current, name);
    let d = cached(slots, current, name)->Some_0;
    let k = choose|k: int| 0 <= k < slots.len() && slots[k] == cached(slots, current, name) && answers(d, current, name);
    assert(slots[k] is Some);
}

/// Caching what the filesystem found for a name that fits an entry keeps the
/// cache in agreement with the mounted filesystems.
proof fn lemma_insert_agrees<F: FileSystem>(mounts: MountTable<F>, slots: Seq<Option<Dentry>>, current: InodeId, name: Seq<u8>, c: InodeId, a: InodeAttr)
    requires
        cache_agrees(slots, mounts),
        (current.mount as int) < mounts.entries().len(),
        name.len() <= DENTRY_NAME_LEN,
        mounts.entries()[current.mount as int].fs.child_of(current, name) == Ok::<InodeId, FsError>(c),
        mounts.entries()[current.mount as int].fs.attr_of(c) == Ok::<InodeAttr, FsError>(a),
    ensures
        cache_agrees(inserted(slots, entry_of(current, name, c, a.generation)), mounts),
{
    reveal(cache_agrees);
    let d = entry_of(current, name, c, a.generation);
    lemma_entry_of(current, name, c, a.generation);
    assert(name.subrange(0, name.len() as int) =~= name);
    if let Some(k) = first_taking(slots, d) {
        lemma_first_taking_props(slots, d);
        let after = slots.update(k, Some(d));
        assert forall|i: int| 0 <= i < after.len() && (#[trigger] after[i]) is Some implies {
            let e = after[i].unwrap();
            let fe = mounts.entries()[e.parent.mount as int].fs;
            &&& (e.parent.mount as int) < mounts.entries().len()
            &&& fe.child_of(e.parent, e.stored_name()) == Ok::<InodeId, FsError>(e.inode)
            &&& fe.attr_of(e.inode) is Ok
            &&& fe.attr_of(e.inode)->Ok_0.generation == e.generation
        } by {
            if i != k {
                assert(after[i] == slots[i]);
                assert(slots[i] is Some);
            }
        }
    }
}

/// With a cache that agrees with the mounted filesystems, one lookup step
/// answers what the filesystem answers, finds a child in the directory's
/// mount, and leaves the cache agreeing.
proof fn lemma_step_transparent<F: FileSystem>(mounts: MountTable<F>, slots: Seq<Option<Dentry>>, current: InodeId, name: Seq<u8>)
    requires
        mounts_closed(mounts),
        cache_agrees(slots, mounts),
        (current.mount as int) < mounts.entries().len(),
    ensures
        ({
            let fs = mounts.entries()[current.mount as int].fs;
            let (r, after) = lookup_step(fs, slots, current, name);
            &&& r == fresh_lookup(fs, current, name)
            &&& (r matches Ok((c, _)) ==> c.mount == current.mount)
            &&& cache_agrees(after, mounts)
        }),
{
    reveal(lookup_step);
    let fs = mounts.entries()[current.mount as int].fs;
    if fs.child_of(current, name) is Ok {
        reveal(mounts_closed);
        assert(fs.child_of(current, name)->Ok_0.mount == current.mount && name.len() <= DENTRY_NAME_LEN);
    }
    match cached(slots, current, name) {
        Some(d) => {
            lemma_hit_agrees(mounts, slots, current, name);
        },
        None => {
            if let Ok((c, a)) = fresh_lookup(fs, current, name) {
                lemma_insert_agrees(mounts, slots, current, name, c, a);
            }
        },
    }
}

/// A cache that agrees with the mounted filesystems does not change what a
/// path resolves to: two such caches give the same answer, and the cache left
/// behind still agrees. (The filesystems must keep children in their
/// directory's mount and find no name longer than a cache entry holds.)
pub proof fn lemma_resolve_transparent<F: FileSystem>(
    mounts: MountTable<F>,
    s1: Seq<Option<Dentry>>,
    s2: Seq<Option<Dentry>>,
    path: Seq<u8>,
    follow_final: bool,
    depth: nat,
)
    requires
        mounts_closed(mounts),
        cache_agrees(s1, mounts),
        cache_agrees(s2, mounts),
        depth <= MAX_SYMLINK_DEPTH,
    ensures
        resolve_spec(mounts, s1, path, follow_final, depth).0 == resolve_spec(mounts, s2, path, follow_final, depth).0,
        cache_agrees(resolve_spec(mounts, s1, path, follow_final, depth).1, mounts),
    decreases MAX_SYMLINK_DEPTH - depth, path.len() + 1,
{
    let (mid, skip) = mounts.best_after(path, mounts.entries().len() as int);
    if (mid as int) < mounts.entries().len() {
        let fs = mounts.entries()[mid as int].fs;
        let root = InodeId { mount: mid, ino: fs.root_spec().ino };
        if let Ok(a) = fs.attr_of(root) {
            let pos = if 0 <= skip < path.len() { skip } else { path.len() as int };
            let first = skip_slashes(path, pos);
            if first < path.len() {
                lemma_skip_bounds(path, pos);
                lemma_walk_transparent(mounts, mid, s1, s2, path, first, root, a, follow_final, depth);
            }
        }
    }
}

/// Resolving a path a second time, through the cache the first resolution
/// left, gives the same answer, when the cache agreed with the mounted
/// filesystems to begin with (and they keep children in their directory's
/// mount and find no name longer than a cache entry holds).
pub proof fn lemma_resolve_again<F: FileSystem>(
    mounts: MountTable<F>,
    slots: Seq<Option<Dentry>>,
    path: Seq<u8>,
    follow_final: bool,
)
    requires
        mounts_closed(mounts),
        cache_agrees(slots, mounts),
    ensures
        ({
            let (first, after) = path_lookup(mounts, slots, path, follow_final);
            path_lookup(mounts, after, path, follow_final).0 == first
        }),
{
    if 0 < path.len() < MAX_PATH {
        lemma_resolve_transparent(mounts, slots, slots, path, follow_final, 0);
        let after = resolve_spec(mounts, slots, path, follow_final, 0).1;
        lemma_resolve_transparent(mounts, after, slots, path, follow_final, 0);
    }
}

/// The walk from a component on, through two caches that agree with the
/// mounted filesystems, gives the same answer (see `lemma_resolve_transparent`).
pub proof fn lemma_walk_transparent<F: FileSystem>(
    mounts: MountTable<F>,
    mid: u32,
    s1: Seq<Option<Dentry>>,
    s2: Seq<Option<Dentry>>,
    path: Seq<u8>,
    start: int,
    current: InodeId,
    attr: InodeAttr,
    follow_final: bool,
    depth: nat,
)
    requires
        mounts_closed(mounts),
        cache_agrees(s1, mounts),
        cache_agrees(s2, mounts),
        0 <= start < path.len(),
        (mid as int) < mounts.entries().len(),
        current.mount == mid,
        depth <= MAX_SYMLINK_DEPTH,
    ensures
        walk_spec(mounts, mid, s1, path, start, current, attr, follow_final, depth).0
            == walk_spec(mounts, mid, s2, path, start, current, attr, follow_final, depth).0,
        cache_agrees(walk_spec(mounts, mid, s1, path, start, current, attr, follow_final, depth).1, mounts),
    decreases MAX_SYMLINK_DEPTH - depth, path.len() - start,
{
    let end = component_end(path, start);
    let next = skip_slashes(path, end);
    let is_last = next >= path.len();
    let fs = mounts.entries()[mid as int].fs;
    let name = path.subrange(start, end);
    if attr.file_type == FileType::Directory {
        lemma_step_transparent(mounts, s1, current, name);
        lemma_step_transparent(mounts, s2, current, name);
        let (r1, after1) = lookup_step(fs, s1, current, name);
        let (r2, after2) = lookup_step(fs, s2, current, name);
        assert(r1 == r2);
        let w1 = walk_spec(mounts, mid, s1, path, start, current, attr, follow_final, depth);
        let w2 = walk_spec(mounts, mid, s2, path, start, current, attr, follow_final, depth);
        if let Ok((c, a)) = r1 {
            if a.file_type == FileType::Symlink && (follow_final || !is_last) {
                if depth < MAX_SYMLINK_DEPTH {
                    if let Ok(target) = fs.link_of(c) {
                        let np = link_continuation(target, path, end);
                        if target.len() > 0 {
                            if target[0] == 0x2fu8 {
                                assert(w1 == resolve_spec(mounts, after1, np, follow_final, depth + 1));
                                assert(w2 == resolve_spec(mounts, after2, np, follow_final, depth + 1));
                                lemma_resolve_transparent(mounts, after1, after2, np, follow_final, depth + 1);
                            } else {
                                assert(w1 == walk_spec(mounts, mid, after1, np, 0, current, attr, follow_final, depth + 1));
                                assert(w2 == walk_spec(mounts, mid, after2, np, 0, current, attr, follow_final, depth + 1));
                                lemma_walk_transparent(mounts, mid, after1, after2, np, 0, current, attr, follow_final, depth + 1);
                            }
                        } else {
                            assert(w1 == (Err::<ResolvedInode, FsError>(FsError::NotFound), after1));
                        }
                    } else {
                        assert(w1 == (Err::<ResolvedInode, FsError>(fs.link_of(c)->Err_0), after1));
                    }
                } else {
                    assert(w1 == (Err::<ResolvedInode, FsError>(FsError::TooManyLinks), after1));
                }
            } else if !is_last {
                lemma_end_bounds(path, start);
                lemma_skip_bounds(path, end);
                assert(w1 == walk_spec(mounts, mid, after1, path, next, c, a, follow_final, depth));
                assert(w2 == walk_spec(mounts, mid, after2, path, next, c, a, follow_final, depth));
                lemma_walk_transparent(mounts, mid, after1, after2, path, next, c, a, follow_final, depth);
            } else {
                assert(w1 == (Ok::<ResolvedInode, FsError>(ResolvedInode { inode: c, attr: a }), after1));
            }
        } else {
            assert(w1 == (Err::<ResolvedInode, FsError>(r1->Err_0), after1));
        }
    }
}

/// Following a symlink met on a walk: when the component at `start`
/// names a symlink (looked up in directory `current`) and more components
/// follow it, or it is the last and `follow_final` is set, the walk answers
/// what walking its target followed by the rest of the path answers, one
/// level deeper: from the mount table for an absolute target, from
/// `current` for a relative one. A last component that is a symlink, with
/// `follow_final` unset, is the answer itself.
pub proof fn lemma_symlink_followed<F: FileSystem>(
    mounts: MountTable<F>,
    mid: u32,
    slots: Seq<Option<Dentry>>,
    path: Seq<u8>,
    start: int,
    current: InodeId,
    attr: InodeAttr,
    follow_final: bool,
    depth: nat,
)
    requires
        0 <= start < path.len(),
        attr.file_type == FileType::Directory,
        depth < MAX_SYMLINK_DEPTH,
    ensures
        ({
            let end = component_end(path, start);
            let is_last = skip_slashes(path, end) >= path.len();
            let fs = mounts.entries()[mid as int].fs;
            let (r, after) = lookup_step(fs, slots, current, path.subrange(start, end));
            let w = walk_spec(mounts, mid, slots, path, start, current, attr, follow_final, depth);
            match r {
                Ok((c, a)) => a.file_type == FileType::Symlink ==> {
                    &&& (follow_final || !is_last) ==> match fs.link_of(c) {
                        Ok(t) => t.len() > 0 ==> w == if t[0] == 0x2fu8 {
                            resolve_spec(mounts, after, link_continuation(t, path, end), follow_final, depth + 1)
                        } else {
                            walk_spec(mounts, mid, after, link_continuation(t, path, end), 0, current, attr, follow_final, depth + 1)
                        },
                        Err(e) => w == (Err::<ResolvedInode, FsError>(e), after),
                    }
                    &&& (is_last && !follow_final) ==> w == (Ok::<ResolvedInode, FsError>(ResolvedInode { inode: c, attr: a }), after)
                },
                Err(_) => true,
            }
        }),
{
}

/// Mount `k`'s path is matched by nothing that would take its place: it is
/// absolute, the mounts after it all have a path, and every other mount
/// path that covers it is shorter.
pub open spec fn unshadowed<F: FileSystem>(mounts: MountTable<F>, k: int) -> bool {
    let p = mounts.entries()[k].path@;
    &&& 0 <= k < mounts.entries().len()
    &&& 0 < p.len() < MAX_PATH
    &&& p[0] == 0x2fu8
    &&& forall|j: int| k < j < mounts.entries().len() ==> (#[trigger] mounts.entries()[j]).path@.len() > 0
    &&& forall|j: int| 0 <= j < mounts.entries().len() && j != k && (#[trigger] mounts.entries()[j]).path@.len() > 0
        && covers(mounts.entries()[j].path@, p) ==> mounts.entries()[j].path@.len() < p.len()
}

proof fn lemma_best_below<F: FileSystem>(mounts: MountTable<F>, k: int, n: int)
    requires
        mounts.wf(),
        unshadowed(mounts, k),
        0 <= n <= k,
    ensures
        mounts.best_after(mounts.entries()[k].path@, n).1 < mounts.entries()[k].path@.len(),
    decreases n,
{
    if n > 0 {
        lemma_best_below(mounts, k, n - 1);
        let m = mounts.entries()[n - 1];
        assert(m.path@.len() > 0 && covers(m.path@, mounts.entries()[k].path@) ==> m.path@.len() < mounts.entries()[k].path@.len());
    }
}

proof fn lemma_best_at<F: FileSystem>(mounts: MountTable<F>, k: int, n: int)
    requires
        mounts.wf(),
        unshadowed(mounts, k),
        k < n <= mounts.entries().len(),
    ensures
        mounts.best_after(mounts.entries()[k].path@, n) == (k as u32, mounts.entries()[k].path@.len() as int),
    decreases n,
{
    let p = mounts.entries()[k].path@;
    if n == k + 1 {
        lemma_best_below(mounts, k, k);
        assert(p.subrange(0, p.len() as int) =~= p);
        assert(covers(p, p));
    } else {
        lemma_best_at(mounts, k, n - 1);
        let m = mounts.entries()[n - 1];
        assert(m.path@.len() > 0);
        assert(covers(m.path@, p) ==> m.path@.len() < p.len());
    }
}

/// A mount's own path, matched by no other mount, resolves to that mount's
/// root: the root inode with the attributes its filesystem gives it (or the
/// error it answers), through any cache and whether or not a final symlink
/// is followed, and the cache is left as it was.
pub proof fn lemma_mount_path_resolves_to_root<F: FileSystem>(
    mounts: MountTable<F>,
    slots: Seq<Option<Dentry>>,
    k: int,
    follow_final: bool,
)
    requires
        mounts.wf(),
        unshadowed(mounts, k),
    ensures
        ({
            let fs = mounts.entries()[k].fs;
            let root = InodeId { mount: k as u32, ino: fs.root_spec().ino };
            path_lookup(mounts, slots, mounts.entries()[k].path@, follow_final) == match fs.attr_of(root) {
                Ok(a) => (Ok::<ResolvedInode, FsError>(ResolvedInode { inode: root, attr: a }), slots),
                Err(e) => (Err::<ResolvedInode, FsError>(e), slots),
            }
        }),
{
    let p = mounts.entries()[k].path@;
    lemma_best_at(mounts, k, mounts.entries().len() as int);
    assert(skip_slashes(p, p.len() as int) == p.len());
}

/// Resolves `path` (already copied into the kernel): the mount whose path
/// is the longest prefix of `path` is entered at its root, and the rest is
/// walked component by component (see `walk_at`).
fn resolve_at<F: FileSystem>(mounts: &MountTable<F>, cache: &mut DentryCache, path: &[u8], follow_final: bool, depth: usize) -> (r: Result<ResolvedInode, FsError>)
    requires
        mounts.wf(),
        old(cache).wf(),
        depth <= MAX_SYMLINK_DEPTH,
    ensures
        final(cache).wf(),
        r matches Ok(res) ==> attr_in_table(*mounts, res),
        (r, final(cache).slots()) == resolve_spec(*mounts, old(cache).slots(), path@, follow_final, depth as nat),
    decreases MAX_SYMLINK_DEPTH - depth, 1nat,
{
    let (mount_id, skip) = mounts.find_mount_for_path(path);
    let fs = match mounts.fs(mount_id) {
        Some(f) => f,
        None => return Err(FsError::NotFound),
    };
    let root = fs.root();
    let current = InodeId::new(mount_id, root.ino);
    let attr = fs.getattr(current)?;
    assert(mounts.entries()[mount_id as int].fs.attr_of(current) == Ok::<InodeAttr, FsError>(attr));

    let pos: usize = if skip < path.len() { skip } else { path.len() };
    proof {
        lemma_skip_bounds(path@, pos as int);
        if skip >= path@.len() {
            assert(skip_slashes(path@, skip as int) == skip as int);
        }
    }
    let (s0, _e0) = next_component(path, pos);
    if s0 >= path.len() {
        return Ok(ResolvedInode { inode: current, attr });
    }
    walk_at(mounts, cache, mount_id, fs, path, s0, current, attr, follow_final, depth)
}

/// Walks `path` from the component starting at `start0`, searching the
/// directory `current0` of mount `mid` for it, then each directory found
/// for the next component. A symlink is followed when another component
/// comes after it, and when it is the last one only with `follow_final`:
/// the walk goes on along its target followed by the rest of the path, from
/// the mount table for an absolute target and from the directory holding
/// the link for a relative one. Symlinks are followed up to
/// `MAX_SYMLINK_DEPTH` deep, counted across nested resolutions.
fn walk_at<F: FileSystem>(
    mounts: &MountTable<F>,
    cache: &mut DentryCache,
    mid: u32,
    fs: &F,
    path: &[u8],
    start0: usize,
    current0: InodeId,
    attr0: InodeAttr,
    follow_final: bool,
    depth: usize,
) -> (r: Result<ResolvedInode, FsError>)
    requires
        mounts.wf(),
        old(cache).wf(),
        depth <= MAX_SYMLINK_DEPTH,
        (mid as int) < mounts.entries().len(),
        *fs == mounts.entries()[mid as int].fs,
        fs.attr_of(current0) == Ok::<InodeAttr, FsError>(attr0),
        start0 < path@.len(),
        path@[start0 as int] != 0x2fu8,
    ensures
        final(cache).wf(),
        r matches Ok(res) ==> attr_in_table(*mounts, res),
        (r, final(cache).slots()) == walk_spec(*mounts, mid, old(cache).slots(), path@, start0 as int, current0, attr0, follow_final, depth as nat),
    decreases MAX_SYMLINK_DEPTH - depth, 0nat,
{
    let mut start = start0;
    let mut current = current0;
    let mut attr = attr0;
    loop
        invariant
            mounts.wf(),
            cache.wf(),
            depth <= MAX_SYMLINK_DEPTH,
            (mid as int) < mounts.entries().len(),
            *fs == mounts.entries()[mid as int].fs,
            fs.attr_of(current) == Ok::<InodeAttr, FsError>(attr),
            start < path@.len(),
            path@[start as int] != 0x2fu8,
            walk_spec(*mounts, mid, cache.slots(), path@, start as int, current, attr, follow_final, depth as nat)
                == walk_spec(*mounts, mid, old(cache).slots(), path@, start0 as int, current0, attr0, follow_final, depth as nat),
        decreases path@.len() - start,
    {
        let (s, end) = next_component(path, start);
        assert(s == start);
        let (ns, _ne) = next_component(path, end);
        let is_last = ns >= path.len();
        if attr.file_type != FileType::Directory {
            return Err(FsError::NotDir);
        }
        let name = slice_range(path, start, end);
        let (c, a) = lookup_component(fs, cache, current, name)?;
        if a.file_type == FileType::Symlink && (follow_final || !is_last) {
            if depth >= MAX_SYMLINK_DEPTH {
                return Err(FsError::TooManyLinks);
            }
            let mut next_path: Vec<u8> = Vec::new();
            let _len = fs.readlink(c, &mut next_path)?;
            if next_path.len() == 0 {
                return Err(FsError::NotFound);
            }
            let ghost target = next_path@;
            let mut i = end;
            while i < path.len()
                invariant
                    end <= i <= path@.len(),
                    next_path@ == target + path@.subrange(end as int, i as int),
                decreases path@.len() - i,
            {
                next_path.push(path[i]);
                assert(next_path@ =~= target + path@.subrange(end as int, i + 1));
                i = i + 1;
            }
            assert(next_path@ == link_continuation(target, path@, end as int));
            if next_path[0] == 0x2f {
                return resolve_at(mounts, cache, next_path.as_slice(), follow_final, depth + 1);
            }
            return walk_at(mounts, cache, mid, fs, next_path.as_slice(), 0, current, attr, follow_final, depth + 1);
        }
        if is_last {
            assert(mounts.entries()[mid as int].fs.attr_of(c) == Ok::<InodeAttr, FsError>(a));
            return Ok(ResolvedInode { inode: c, attr: a });
        }
        proof {
            lemma_skip_bounds(path@, end as int);
        }
        current = c;
        attr = a;
        start = ns;
    }
}

fn slice_range(p: &[u8], start: usize, end: usize) -> (r: &[u8])
    requires
        start <= end <= p@.len(),
    ensures
        r@ == p@.subrange(start as int, end as int),
{
    let (head, _) = p.split_at(end);
    let (_, tail) = head.split_at(start);
    tail
}

/// What resolving a path handed in from outside answers, and the cache slots
/// it leaves: an empty path, or one of `MAX_PATH` bytes or more, is refused
/// before anything is looked up.
pub open spec fn path_lookup<F: FileSystem>(mounts: MountTable<F>, slots: Seq<Option<Dentry>>, path: Seq<u8>, follow_final: bool)
    -> (Result<ResolvedInode, FsError>, Seq<Option<Dentry>>)
{
    if path.len() == 0 || path.len() >= MAX_PATH {
        (Err(FsError::Invalid), slots)
    } else {
        resolve_spec(mounts, slots, path, follow_final, 0)
    }
}

/// Resolves `path` with `follow_final` set (see `resolve_at`).
pub fn resolve_path<F: FileSystem>(mounts: &MountTable<F>, cache: &mut DentryCache, path: &[u8]) -> (r: Result<ResolvedInode, FsError>)
    requires
        mounts.wf(),
        old(cache).wf(),
    ensures
        final(cache).wf(),
        (r, final(cache).slots()) == path_lookup(*mounts, old(cache).slots(), path@, true),
        r matches Ok(res) ==> attr_in_table(*mounts, res),
{
    resolve_path_at(mounts, cache, path, true)
}

/// Resolves `path`; a final symlink is followed only when `follow_final`.
pub fn resolve_path_at<F: FileSystem>(mounts: &MountTable<F>, cache: &mut DentryCache, path: &[u8], follow_final: bool) -> (r: Result<ResolvedInode, FsError>)
    requires
        mounts.wf(),
        old(cache).wf(),
    ensures
        final(cache).wf(),
        (r, final(cache).slots()) == path_lookup(*mounts, old(cache).slots(), path@, follow_final),
        r matches Ok(res) ==> attr_in_table(*mounts, res),
{
    let pr = PathResolution::from_kernel_path(path)?;
    resolve_at(mounts, cache, pr.as_path(), follow_final, 0)
}

/// What `revalidate` refuses `resolved` with, if anything: a mount that is
/// not there, an inode that cannot be read, or a changed generation.
pub open spec fn stale_error<F: FileSystem>(mounts: MountTable<F>, resolved: ResolvedInode) -> Option<FsError> {
    if resolved.inode.mount as int >= mounts.entries().len() {
        Some(FsError::NotFound)
    } else {
        match mounts.entries()[resolved.inode.mount as int].fs.attr_of(resolved.inode) {
            Err(e) => Some(e),
            Ok(a) => if a.generation != resolved.attr.generation { Some(FsError::Invalid) } else { None },
        }
    }
}

/// Checks, before a mutating operation, that the inode still has the
/// generation seen when it was resolved.
pub fn revalidate<F: FileSystem>(mounts: &MountTable<F>, resolved: &ResolvedInode) -> (r: Result<(), FsError>)
    requires
        mounts.wf(),
    ensures
        r is Ok <==> stale_error(*mounts, *resolved) is None,
        stale_error(*mounts, *resolved) matches Some(e) ==> r == Err::<(), FsError>(e),
{
    let fs = match mounts.fs(resolved.inode.mount) {
        Some(f) => f,
        None => return Err(FsError::NotFound),
    };
    let attr = fs.getattr(resolved.inode)?;
    if attr.generation != resolved.attr.generation {
        return Err(FsError::Invalid);
    }
    Ok(())
}

/// Drops every cached entry that leads to `inode`.
pub fn invalidate_dentry(cache: &mut DentryCache, inode: InodeId)
    requires
        old(cache).wf(),
    ensures
        final(cache).wf(),
        final(cache).slots() == invalidated(old(cache).slots(), inode),
{
    cache.invalidate_inode(inode);
    assert(cache.slots() =~= invalidated(old(cache).slots(), inode));
}

/// The last slash in `p`, if any.
pub open spec fn last_slash(p: Seq<u8>) -> Option<int> {
    if exists|i: int| 0 <= i < p.len() && p[i] == 0x2fu8 {
        Some(choose|i: int| 0 <= i < p.len() && p[i] == 0x2fu8 && forall|j: int| i < j < p.len() ==> p[j] != 0x2fu8)
    } else {
        None
    }
}

/// How `lookup_parent` splits a path: the length of the parent part and of
/// the final name, or the error for a path with no usable final name.
pub open spec fn parent_split(p: Seq<u8>) -> Result<(int, int), FsError> {
    if p.len() == 0 {
        Err(FsError::Invalid)
    } else {
        let (parent_len, name_len) = match last_slash(p) {
            Some(i) => if i == 0 { (1int, p.len() - 1) } else { (i, p.len() - i - 1) },
            None => (0int, p.len() as int),
        };
        if name_len == 0 || name_len > MAX_NAME {
            Err(FsError::Invalid)
        } else {
            Ok((parent_len, name_len))
        }
    }
}

fn find_last_slash(p: &[u8]) -> (r: Option<usize>)
    ensures
        r matches Some(i) ==> last_slash(p@) == Some(i as int) && (i as int) < p@.len(),
        r is None ==> last_slash(p@) is None,
{
    let mut i = p.len();
    while i > 0
        invariant
            0 <= i <= p@.len(),
            forall|j: int| i <= j < p@.len() ==> p@[j] != 0x2fu8,
        decreases i,
    {
        if p[i - 1] == 0x2f {
            proof {
                let k = (i - 1) as int;
                let c = choose|c: int| 0 <= c < p@.len() && p@[c] == 0x2fu8 && forall|j: int| c < j < p@.len() ==> p@[j] != 0x2fu8;
                assert(0 <= c < p@.len() && p@[c] == 0x2fu8);
                if c < k {
                    assert(p@[k] != 0x2fu8);
                }
                if c > k {
                    assert(p@[c] != 0x2fu8);
                }
            }
            return Some(i - 1);
        }
        i = i - 1;
    }
    None
}

/// Splits `path` into its parent part and final name.
pub fn split_parent(path: &[u8]) -> (r: Result<(usize, usize), FsError>)
    ensures
        match parent_split(path@) {
            Ok((pl, nl)) => r == Ok::<(usize, usize), FsError>((pl as usize, nl as usize)) && pl + nl <= path@.len(),
            Err(e) => r == Err::<(usize, usize), FsError>(e),
        },
        r matches Ok((a, b)) ==> a + b <= path@.len() && parent_split(path@) == Ok::<(int, int), FsError>((a as int, b as int)),
{
    if path.len() == 0 {
        return Err(FsError::Invalid);
    }
    let len = path.len();
    let (parent_len, name_len) = match find_last_slash(path) {
        Some(i) => {
            if i == 0 {
                if len == 1 {
                    return Err(FsError::Invalid);
                }
                (1, len - 1)
            } else {
                (i, len - i - 1)
            }
        },
        None => (0, len),
    };
    if name_len == 0 || name_len > MAX_NAME {
        return Err(FsError::Invalid);
    }
    Ok((parent_len, name_len))
}

/// The path of the directory that holds the final component, given the
/// length of the parent part: the root for a name alone or under `/`.
pub open spec fn parent_path(p: Seq<u8>, parent_len: int) -> Seq<u8> {
    if parent_len <= 1 {
        seq![0x2fu8]
    } else {
        p.subrange(0, parent_len)
    }
}

/// Resolves the directory that would hold `path`'s final component, and
/// hands back that component.
pub fn lookup_parent<F: FileSystem>(mounts: &MountTable<F>, cache: &mut DentryCache, path: &[u8]) -> (r: Result<(InodeId, Vec<u8>), FsError>)
    requires
        mounts.wf(),
        old(cache).wf(),
    ensures
        final(cache).wf(),
        parent_split(path@) is Err ==> r == Err::<(InodeId, Vec<u8>), FsError>(parent_split(path@)->Err_0)
            && final(cache).slots() == old(cache).slots(),
        parent_split(path@) matches Ok((pl, nl)) ==> {
            let (pr, after) = path_lookup(*mounts, old(cache).slots(), parent_path(path@, pl), true);
            &&& final(cache).slots() == after
            &&& (pr is Err ==> r == Err::<(InodeId, Vec<u8>), FsError>(pr->Err_0))
            &&& (pr is Ok ==> (r matches Ok((parent, name)) && parent == pr->Ok_0.inode
                    && name@ == path@.subrange(path@.len() - nl, path@.len() as int)))
        },
{
    let (parent_len, name_len) = split_parent(path)?;
    let len = path.len();
    let name_slice = slice_range(path, len - name_len, len);
    let mut name: Vec<u8> = Vec::new();
    let mut i: usize = 0;
    while i < name_slice.len()
        invariant
            0 <= i <= name_slice@.len(),
            name@ == name_slice@.subrange(0, i as int),
        decreases name_slice@.len() - i,
    {
        name.push(name_slice[i]);
        assert(name@ =~= name_slice@.subrange(0, i + 1));
        i = i + 1;
    }
    assert(name_slice@.subrange(0, name_slice@.len() as int) =~= name_slice@);
    let parent = if parent_len <= 1 {
        let root_path: [u8; 1] = [0x2f];
        assert(root_path@ =~= parent_path(path@, parent_len as int));
        resolve_path(mounts, cache, &root_path)?.inode
    } else {
        resolve_path(mounts, cache, slice_range(path, 0, parent_len))?.inode
    };
    Ok((parent, name))
}

} // verus!
