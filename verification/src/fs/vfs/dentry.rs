//! The dentry cache: (parent, name) to inode, with the generation seen.

use vstd::prelude::*;
use crate::fs::vfs::inode::InodeId;

verus! {

pub const DENTRY_SLOTS: usize = 512;
/// Names are kept up to this many bytes.
pub const DENTRY_NAME_LEN: usize = 64;
pub const HASH_SEED_MUL: u64 = 0x9E37_79B9;
pub const HASH_STEP_MUL: u64 = 0x0000_0100_0000_01b3;

#[derive(Clone, Copy, Debug)]
pub struct Dentry {
    pub parent: InodeId,
    pub name_hash: u64,
    pub name_len: u8,
    pub name: [u8; 64],
    pub inode: InodeId,
    pub generation: u64,
}

impl Dentry {
    pub fn empty() -> (r: Self)
        ensures
            r.parent == (InodeId { mount: u32::MAX, ino: 0 }),
            r.inode == (InodeId { mount: u32::MAX, ino: 0 }),
            r.name_hash == 0 && r.name_len == 0 && r.generation == 0,
            forall|i: int| 0 <= i < DENTRY_NAME_LEN ==> #[trigger] r.name@[i] == 0,
    {
        Dentry {
            parent: InodeId::invalid(),
            name_hash: 0,
            name_len: 0,
            name: [0u8; 64],
            inode: InodeId::invalid(),
            generation: 0,
        }
    }

    /// The stored name: the first `name_len` bytes.
    pub open spec fn stored_name(self) -> Seq<u8> {
        self.name@.subrange(0, self.name_len as int)
    }
}

/// The hash before any name byte: mount id mixed with the inode number.
pub open spec fn hash_seed(parent: InodeId) -> u64 {
    (parent.mount as u64) ^ parent.ino.wrapping_mul(HASH_SEED_MUL)
}

/// FNV-style fold of the name's bytes into the seed.
pub open spec fn hash_fold(h: u64, name: Seq<u8>) -> u64
    decreases name.len(),
{
    if name.len() == 0 {
        h
    } else {
        hash_fold(h, name.drop_last()).wrapping_mul(HASH_STEP_MUL).wrapping_add(name.last() as u64)
    }
}

#[verifier::opaque]
pub open spec fn spec_hash(parent: InodeId, name: Seq<u8>) -> u64 {
    hash_fold(hash_seed(parent), name)
}

/// A cached entry answers a lookup of `name` under `parent`.
pub open spec fn answers(e: Dentry, parent: InodeId, name: Seq<u8>) -> bool {
    &&& e.parent == parent
    &&& e.name_hash == spec_hash(parent, name)
    &&& e.name_len as int == name.len()
    &&& e.stored_name() == name
}

/// A slot holding an entry that answers the lookup.
pub open spec fn slot_answers(slot: Option<Dentry>, parent: InodeId, name: Seq<u8>) -> bool {
    slot matches Some(e) && answers(e, parent, name)
}

/// A slot `insert` may put `d` in: empty, or holding an entry for the same
/// parent and hash.
pub open spec fn takes(slot: Option<Dentry>, d: Dentry) -> bool {
    match slot {
        None => true,
        Some(e) => e.parent == d.parent && e.name_hash == d.name_hash,
    }
}

/// Whether the entry's stored name is `name`.
fn same_name(entry: &Dentry, name: &[u8]) -> (r: bool)
    requires
        entry.name_len <= DENTRY_NAME_LEN,
        entry.name_len as int == name@.len(),
    ensures
        r == (entry.stored_name() == name@),
{
    let len = entry.name_len as usize;
    let mut k: usize = 0;
    while k < len
        invariant
            0 <= k <= len,
            len <= DENTRY_NAME_LEN,
            len == name@.len(),
            len == entry.name_len,
            entry.name@.subrange(0, k as int) == name@.subrange(0, k as int),
        decreases len - k,
    {
        if entry.name[k] != name[k] {
            assert(entry.stored_name()[k as int] != name@[k as int]);
            return false;
        }
        assert(entry.name@.subrange(0, k + 1) =~= entry.name@.subrange(0, k as int).push(entry.name@[k as int]));
        assert(name@.subrange(0, k + 1) =~= name@.subrange(0, k as int).push(name@[k as int]));
        k = k + 1;
    }
    assert(name@.subrange(0, len as int) =~= name@);
    true
}

pub struct DentryCache {
    entries: Vec<Option<Dentry>>,
}

impl DentryCache {
    pub closed spec fn slots(&self) -> Seq<Option<Dentry>> {
        self.entries@
    }

    /// Every slot exists and every stored name fits its array.
    pub open spec fn wf(&self) -> bool {
        &&& self.slots().len() == DENTRY_SLOTS
        &&& forall|i: int| 0 <= i < DENTRY_SLOTS && (#[trigger] self.slots()[i]).is_some()
            ==> self.slots()[i].unwrap().name_len <= DENTRY_NAME_LEN
    }

    pub fn new() -> (r: Self)
        ensures
            r.wf(),
            forall|i: int| 0 <= i < DENTRY_SLOTS ==> (#[trigger] r.slots()[i]).is_none(),
    {
        let mut entries: Vec<Option<Dentry>> = Vec::new();
        let mut i: usize = 0;
        while i < DENTRY_SLOTS
            invariant
                0 <= i <= DENTRY_SLOTS,
                entries@.len() == i,
                forall|j: int| 0 <= j < i ==> (#[trigger] entries@[j]).is_none(),
            decreases DENTRY_SLOTS - i,
        {
            entries.push(None);
            i = i + 1;
        }
        DentryCache { entries }
    }

    pub fn hash(parent: InodeId, name: &[u8]) -> (r: u64)
        ensures
            r == spec_hash(parent, name@),
    {
        reveal(spec_hash);
        let mut h = (parent.mount as u64) ^ parent.ino.wrapping_mul(HASH_SEED_MUL);
        let mut i: usize = 0;
        while i < name.len()
            invariant
                0 <= i <= name@.len(),
                h == hash_fold(hash_seed(parent), name@.subrange(0, i as int)),
            decreases name@.len() - i,
        {
            assert(name@.subrange(0, i + 1).drop_last() =~= name@.subrange(0, i as int));
            h = h.wrapping_mul(HASH_STEP_MUL).wrapping_add(name[i] as u64);
            i = i + 1;
        }
        assert(name@.subrange(0, name@.len() as int) =~= name@);
        h
    }

    /// The first cached entry, in slot order, for `name` under `parent`.
    pub fn get(&self, parent: InodeId, name: &[u8]) -> (r: Option<Dentry>)
        requires
            self.wf(),
        ensures
            match r {
                Some(d) => exists|k: int| 0 <= k < DENTRY_SLOTS && self.slots()[k] == Some(d) && answers(d, parent, name@)
                    && forall|j: int| 0 <= j < k ==> !slot_answers(#[trigger] self.slots()[j], parent, name@),
                None => forall|j: int| 0 <= j < DENTRY_SLOTS ==> !slot_answers(#[trigger] self.slots()[j], parent, name@),
            },
            r == cached(self.slots(), parent, name@),
    {
        let hash = Self::hash(parent, name);
        let mut i: usize = 0;
        while i < DENTRY_SLOTS
            invariant
                0 <= i <= DENTRY_SLOTS,
                self.wf(),
                hash == spec_hash(parent, name@),
                forall|j: int| 0 <= j < i ==> !slot_answers(#[trigger] self.slots()[j], parent, name@),
            decreases DENTRY_SLOTS - i,
        {
            if let Some(entry) = self.entries[i] {
                assert(self.slots()[i as int] == Some(entry));
                if entry.parent == parent && entry.name_hash == hash && entry.name_len as usize == name.len()
                    && same_name(&entry, name) {
                    proof {
                        lemma_first_answering(self.slots(), parent, name@, i as int);
                    }
                    return Some(entry);
                }
            }
            i = i + 1;
        }
        None
    }

    /// Caches `dentry` in the first slot that is empty or holds an entry for
    /// the same parent and hash; when there is none, the cache is unchanged.
    pub fn insert(&mut self, dentry: Dentry)
        requires
            old(self).wf(),
            dentry.name_len <= DENTRY_NAME_LEN,
        ensures
            final(self).wf(),
            match first_taking(old(self).slots(), dentry) {
                Some(k) => final(self).slots() == old(self).slots().update(k, Some(dentry)),
                None => final(self).slots() == old(self).slots(),
            },
    {
        let mut i: usize = 0;
        while i < DENTRY_SLOTS
            invariant
                0 <= i <= DENTRY_SLOTS,
                self.wf(),
                self.slots() == old(self).slots(),
                dentry.name_len <= DENTRY_NAME_LEN,
                forall|j: int| 0 <= j < i ==> !takes(#[trigger] old(self).slots()[j], dentry),
            decreases DENTRY_SLOTS - i,
        {
            let take = match self.entries[i] {
                None => true,
                Some(e) => e.parent == dentry.parent && e.name_hash == dentry.name_hash,
            };
            if take {
                proof {
                    lemma_first_taking(old(self).slots(), dentry, i as int);
                }
                self.entries.set(i, Some(dentry));
                return;
            }
            i = i + 1;
        }
        proof {
            lemma_no_taking(old(self).slots(), dentry);
        }
    }

    /// Drops every entry that leads to `inode`.
    pub fn invalidate_inode(&mut self, inode: InodeId)
        requires
            old(self).wf(),
        ensures
            final(self).wf(),
            forall|i: int| 0 <= i < DENTRY_SLOTS ==> #[trigger] final(self).slots()[i] == (match old(self).slots()[i] {
                Some(e) => if e.inode == inode { None } else { Some(e) },
                None => None::<Dentry>,
            }),
    {
        let mut i: usize = 0;
        while i < DENTRY_SLOTS
            invariant
                0 <= i <= DENTRY_SLOTS,
                self.wf(),
                old(self).wf(),
                forall|j: int| 0 <= j < i ==> #[trigger] self.slots()[j] == (match old(self).slots()[j] {
                    Some(e) => if e.inode == inode { None } else { Some(e) },
                    None => None::<Dentry>,
                }),
                forall|j: int| i <= j < DENTRY_SLOTS ==> #[trigger] self.slots()[j] == old(self).slots()[j],
            decreases DENTRY_SLOTS - i,
        {
            let drop = match self.entries[i] {
                Some(e) => e.inode == inode,
                None => false,
            };
            if drop {
                self.entries.set(i, None);
            }
            i = i + 1;
        }
    }
}

/// The first slot `insert` may put `d` in.
pub open spec fn first_taking(slots: Seq<Option<Dentry>>, d: Dentry) -> Option<int> {
    if exists|k: int| 0 <= k < slots.len() && takes(slots[k], d) {
        Some(choose|k: int| 0 <= k < slots.len() && takes(slots[k], d)
            && forall|j: int| 0 <= j < k ==> !takes(#[trigger] slots[j], d))
    } else {
        None
    }
}

proof fn lemma_first_taking(slots: Seq<Option<Dentry>>, d: Dentry, k: int)
    requires
        0 <= k < slots.len(),
        takes(slots[k], d),
        forall|j: int| 0 <= j < k ==> !takes(#[trigger] slots[j], d),
    ensures
        first_taking(slots, d) == Some(k),
{
    let c = choose|c: int| 0 <= c < slots.len() && takes(slots[c], d)
        && forall|j: int| 0 <= j < c ==> !takes(#[trigger] slots[j], d);
    assert(0 <= c < slots.len() && takes(slots[c], d) && forall|j: int| 0 <= j < c ==> !takes(#[trigger] slots[j], d));
    if c < k {
        assert(!takes(slots[c], d));
    }
    if k < c {
        assert(!takes(slots[k], d));
    }
}

proof fn lemma_no_taking(slots: Seq<Option<Dentry>>, d: Dentry)
    requires
        forall|j: int| 0 <= j < slots.len() ==> !takes(#[trigger] slots[j], d),
    ensures
        first_taking(slots, d).is_none(),
{
}

proof fn lemma_least_taking(slots: Seq<Option<Dentry>>, d: Dentry, k0: int)
    requires
        0 <= k0 < slots.len(),
        takes(slots[k0], d),
    ensures
        exists|k: int| 0 <= k < slots.len() && takes(slots[k], d)
            && forall|j: int| 0 <= j < k ==> !takes(#[trigger] slots[j], d),
    decreases k0,
{
    if exists|j: int| 0 <= j < k0 && takes(slots[j], d) {
        let j = choose|j: int| 0 <= j < k0 && takes(slots[j], d);
        lemma_least_taking(slots, d, j);
    } else {
        assert(forall|j: int| 0 <= j < k0 ==> !takes(#[trigger] slots[j], d));
    }
}

pub(crate) proof fn lemma_first_taking_props(slots: Seq<Option<Dentry>>, d: Dentry)
    requires
        first_taking(slots, d).is_some(),
    ensures
        ({
            let k = first_taking(slots, d).unwrap();
            &&& 0 <= k < slots.len()
            &&& takes(slots[k], d)
            &&& forall|j: int| 0 <= j < k ==> !takes(#[trigger] slots[j], d)
        }),
{
    let k0 = choose|k: int| 0 <= k < slots.len() && takes(slots[k], d);
    lemma_least_taking(slots, d, k0);
}

/// A lookup right after caching an entry whose hash is its own name's finds
/// that entry, whenever the cache had a slot for it.
pub proof fn lemma_insert_then_get(before: Seq<Option<Dentry>>, d: Dentry)
    requires
        before.len() == DENTRY_SLOTS,
        d.name_len <= DENTRY_NAME_LEN,
        d.name_hash == spec_hash(d.parent, d.stored_name()),
        first_taking(before, d).is_some(),
    ensures
        ({
            let k = first_taking(before, d).unwrap();
            let after = before.update(k, Some(d));
            &&& after[k] == Some(d)
            &&& answers(d, d.parent, d.stored_name())
            &&& forall|j: int| 0 <= j < k ==> !slot_answers(#[trigger] after[j], d.parent, d.stored_name())
        }),
{
    lemma_first_taking_props(before, d);
    let k = first_taking(before, d).unwrap();
    let after = before.update(k, Some(d));
    let name = d.stored_name();
    let h = d.name_hash;
    assert forall|j: int| 0 <= j < k implies !slot_answers(#[trigger] after[j], d.parent, name) by {
        assert(!takes(before[j], d));
        assert(after[j] == before[j]);
        if let Some(e) = before[j] {
            assert(e.parent != d.parent || e.name_hash != h);
        }
    }
}

/// After invalidating an inode no slot leads to it.
pub proof fn lemma_invalidated_gone(before: Seq<Option<Dentry>>, after: Seq<Option<Dentry>>, inode: InodeId)
    requires
        before.len() == DENTRY_SLOTS,
        after.len() == DENTRY_SLOTS,
        forall|i: int| 0 <= i < DENTRY_SLOTS ==> #[trigger] after[i] == (match before[i] {
            Some(e) => if e.inode == inode { None } else { Some(e) },
            None => None::<Dentry>,
        }),
    ensures
        forall|i: int| 0 <= i < DENTRY_SLOTS ==> !(#[trigger] after[i] matches Some(e) && e.inode == inode),
{
}

/// Index of the first slot that answers a lookup of `name` under `parent`.
pub open spec fn first_answering(slots: Seq<Option<Dentry>>, parent: InodeId, name: Seq<u8>) -> Option<int> {
    if exists|k: int| 0 <= k < slots.len() && slot_answers(slots[k], parent, name) {
        Some(choose|k: int| 0 <= k < slots.len() && slot_answers(slots[k], parent, name)
            && forall|j: int| 0 <= j < k ==> !slot_answers(#[trigger] slots[j], parent, name))
    } else {
        None
    }
}

/// What a cache lookup of `name` under `parent` finds: the first answering entry.
pub open spec fn cached(slots: Seq<Option<Dentry>>, parent: InodeId, name: Seq<u8>) -> Option<Dentry> {
    match first_answering(slots, parent, name) {
        Some(k) => slots[k],
        None => None,
    }
}

proof fn lemma_least_answering(slots: Seq<Option<Dentry>>, parent: InodeId, name: Seq<u8>, k0: int)
    requires
        0 <= k0 < slots.len(),
        slot_answers(slots[k0], parent, name),
    ensures
        exists|k: int| 0 <= k < slots.len() && slot_answers(slots[k], parent, name)
            && forall|j: int| 0 <= j < k ==> !slot_answers(#[trigger] slots[j], parent, name),
    decreases k0,
{
    if exists|j: int| 0 <= j < k0 && slot_answers(slots[j], parent, name) {
        let j = choose|j: int| 0 <= j < k0 && slot_answers(slots[j], parent, name);
        lemma_least_answering(slots, parent, name, j);
    } else {
        assert(forall|j: int| 0 <= j < k0 ==> !slot_answers(#[trigger] slots[j], parent, name));
    }
}

/// What a cache lookup finds is an entry in some slot that answers it.
pub proof fn lemma_cached_answers(slots: Seq<Option<Dentry>>, parent: InodeId, name: Seq<u8>)
    requires
        cached(slots, parent, name) is Some,
    ensures
        exists|k: int| 0 <= k < slots.len() && slots[k] == cached(slots, parent, name)
            && answers(cached(slots, parent, name)->Some_0, parent, name),
{
    let k0 = choose|k: int| 0 <= k < slots.len() && slot_answers(slots[k], parent, name);
    lemma_least_answering(slots, parent, name, k0);
    let k = first_answering(slots, parent, name)->Some_0;
    assert(0 <= k < slots.len() && slot_answers(slots[k], parent, name));
}

proof fn lemma_first_answering(slots: Seq<Option<Dentry>>, parent: InodeId, name: Seq<u8>, k: int)
    requires
        0 <= k < slots.len(),
        slot_answers(slots[k], parent, name),
        forall|j: int| 0 <= j < k ==> !slot_answers(#[trigger] slots[j], parent, name),
    ensures
        first_answering(slots, parent, name) == Some(k),
{
    let c = choose|c: int| 0 <= c < slots.len() && slot_answers(slots[c], parent, name)
        && forall|j: int| 0 <= j < c ==> !slot_answers(#[trigger] slots[j], parent, name);
    assert(0 <= c < slots.len() && slot_answers(slots[c], parent, name));
    if c < k {
        assert(!slot_answers(slots[c], parent, name));
    }
    if k < c {
        assert(!slot_answers(slots[k], parent, name));
    }
}

proof fn lemma_first_answering_props(slots: Seq<Option<Dentry>>, parent: InodeId, name: Seq<u8>)
    requires
        first_answering(slots, parent, name) is Some,
    ensures
        ({
            let k = first_answering(slots, parent, name)->Some_0;
            &&& 0 <= k < slots.len()
            &&& slot_answers(slots[k], parent, name)
            &&& forall|j: int| 0 <= j < k ==> !slot_answers(#[trigger] slots[j], parent, name)
        }),
{
    let k0 = choose|k: int| 0 <= k < slots.len() && slot_answers(slots[k], parent, name);
    lemma_least_answering(slots, parent, name, k0);
}

/// What `DentryCache::get` answers after `DentryCache::insert(d)`, when the
/// cache had a slot for `d` (empty, or holding an entry of the same parent
/// and hash) and `d`'s hash is that of its own name: a lookup of `d`'s name
/// finds `d` itself. A lookup of any other name finds either nothing or an
/// entry that was already cached for that name, so the cache only forgets
/// and never answers wrongly. Where at most one slot answered the other name
/// before, it finds what it found before, or nothing.
pub proof fn lemma_insert_only_forgets(before: Seq<Option<Dentry>>, d: Dentry, p: InodeId, n: Seq<u8>)
    requires
        before.len() == DENTRY_SLOTS,
        d.name_len <= DENTRY_NAME_LEN,
        d.name_hash == spec_hash(d.parent, d.stored_name()),
        first_taking(before, d) is Some,
    ensures
        ({
            let after = before.update(first_taking(before, d)->Some_0, Some(d));
            &&& cached(after, d.parent, d.stored_name()) == Some(d)
            &&& !(p == d.parent && n == d.stored_name()) ==> {
                &&& cached(after, p, n) matches Some(e) ==> exists|j: int| 0 <= j < before.len() && before[j] == Some(e)
                    && slot_answers(#[trigger] before[j], p, n)
                &&& (forall|i: int, j: int| 0 <= i < before.len() && 0 <= j < before.len()
                        && slot_answers(#[trigger] before[i], p, n) && slot_answers(#[trigger] before[j], p, n) ==> i == j)
                    ==> (cached(after, p, n) is None || cached(after, p, n) == cached(before, p, n))
            }
        }),
{
    lemma_insert_then_get(before, d);
    lemma_first_taking_props(before, d);
    let k = first_taking(before, d)->Some_0;
    let after = before.update(k, Some(d));
    lemma_first_answering(after, d.parent, d.stored_name(), k);
    if !(p == d.parent && n == d.stored_name()) {
        if cached(after, p, n) is Some {
            lemma_first_answering_props(after, p, n);
            let j = first_answering(after, p, n)->Some_0;
            if j == k {
                assert(answers(d, p, n));
                assert(false);
            }
            assert(before[j] == after[j]);
            if forall|i: int, j2: int| 0 <= i < before.len() && 0 <= j2 < before.len()
                && slot_answers(#[trigger] before[i], p, n) && slot_answers(#[trigger] before[j2], p, n) ==> i == j2 {
                assert(first_answering(before, p, n) is Some);
                lemma_first_answering_props(before, p, n);
                let j0 = first_answering(before, p, n)->Some_0;
                assert(slot_answers(before[j0], p, n) && slot_answers(before[j], p, n));
            }
        }
    }
}

/// Dropping the entries of `inode` leaves no lookup answered by one of
/// them, and every lookup answered by an entry of another inode is still
/// answered by it.
pub proof fn lemma_invalidate_keeps_others(before: Seq<Option<Dentry>>, after: Seq<Option<Dentry>>, inode: InodeId, p: InodeId, n: Seq<u8>)
    requires
        before.len() == DENTRY_SLOTS,
        after.len() == DENTRY_SLOTS,
        forall|i: int| 0 <= i < DENTRY_SLOTS ==> #[trigger] after[i] == (match before[i] {
            Some(e) => if e.inode == inode { None } else { Some(e) },
            None => None::<Dentry>,
        }),
    ensures
        cached(after, p, n) matches Some(e) ==> e.inode != inode,
        match cached(before, p, n) {
            Some(e) => e.inode != inode ==> cached(after, p, n) == Some(e),
            None => true,
        },
{
    if cached(after, p, n) is Some {
        lemma_first_answering_props(after, p, n);
        let k = first_answering(after, p, n)->Some_0;
        assert(after[k] is Some);
    }
    if let Some(e) = cached(before, p, n) {
        if e.inode != inode {
            lemma_first_answering_props(before, p, n);
            let j0 = first_answering(before, p, n)->Some_0;
            assert(after[j0] == Some(e));
            assert forall|j: int| 0 <= j < j0 implies !slot_answers(#[trigger] after[j], p, n) by {
                assert(!slot_answers(before[j], p, n));
            }
            lemma_first_answering(after, p, n, j0);
        }
    }
}

} // verus!
