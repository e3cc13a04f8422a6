//! In-memory filesystem, used for `/`, `/tmp` and initramfs-style trees.

use vstd::prelude::*;
use crate::bytes::copy_bytes;
use crate::fs::block::overlay;
use crate::fs::names::{is_utf8, lemma_lex_asymmetric, lemma_lex_irreflexive, lemma_lex_total, lemma_lex_transitive, lex_lt, name_eq, name_lt, utf8_ok};
use crate::fs::vfs::inode::{FileType, InodeAttr, InodeId, InodeMode};
use crate::fs::vfs::superblock::{DirEntry, FileSystem, FsError};

verus! {

pub const ROOT_INO: u64 = 1;
/// `readdir` reports names up to this many bytes.
pub const DIRENT_NAME_MAX: usize = 256;

/// One name in a directory and the inode it leads to.
pub struct DirChild {
    pub name: Vec<u8>,
    pub ino: u64,
}

pub struct TmpNode {
    pub attr: InodeAttr,
    pub data: Vec<u8>,
    pub children: Vec<DirChild>,
    pub link_target: Vec<u8>,
}

/// A node as plain values.
pub struct NodeView {
    pub attr: InodeAttr,
    pub data: Seq<u8>,
    pub children: Seq<(Seq<u8>, u64)>,
    pub link: Seq<u8>,
}

impl View for TmpNode {
    type V = NodeView;

    open spec fn view(&self) -> NodeView {
        NodeView {
            attr: self.attr,
            data: self.data@,
            children: children_view(self.children@),
            link: self.link_target@,
        }
    }
}

pub open spec fn children_view(c: Seq<DirChild>) -> Seq<(Seq<u8>, u64)> {
    c.map_values(|x: DirChild| (x.name@, x.ino))
}

/// Names strictly increasing, hence distinct.
pub open spec fn sorted(children: Seq<(Seq<u8>, u64)>) -> bool {
    forall|i: int, j: int| 0 <= i < j < children.len() ==> lex_lt(#[trigger] children[i].0, #[trigger] children[j].0)
}

/// `p` is where `name` goes in the sorted `children`.
pub open spec fn sorted_pos(children: Seq<(Seq<u8>, u64)>, name: Seq<u8>, p: int) -> bool {
    &&& 0 <= p <= children.len()
    &&& forall|j: int| 0 <= j < p ==> lex_lt(#[trigger] children[j].0, name)
    &&& p < children.len() ==> !lex_lt(children[p].0, name)
}

/// The entry of `children` named `name`.
pub open spec fn child_index(children: Seq<(Seq<u8>, u64)>, name: Seq<u8>) -> Option<int> {
    if exists|i: int| 0 <= i < children.len() && children[i].0 == name {
        Some(choose|i: int| 0 <= i < children.len() && children[i].0 == name)
    } else {
        None
    }
}

/// A node just made: empty, one link, generation 1.
pub open spec fn fresh_node(ino: u64, file_type: FileType, mode: InodeMode) -> NodeView {
    NodeView {
        attr: InodeAttr { ino, mode, file_type, size: 0, nlink: 1, generation: 1, rdev: 0 },
        data: Seq::empty(),
        children: Seq::empty(),
        link: Seq::empty(),
    }
}

pub open spec fn view_nodes(v: Seq<Option<TmpNode>>) -> Seq<Option<NodeView>> {
    v.map_values(|n: Option<TmpNode>| match n {
        Some(t) => Some(t@),
        None => None,
    })
}

/// Node `i` has number `i`, and every directory is sorted.
pub open spec fn nodes_ok(ns: Seq<Option<NodeView>>) -> bool {
    forall|i: int| 0 <= i < ns.len() && (#[trigger] ns[i]) is Some ==> {
        &&& ns[i]->Some_0.attr.ino == i
        &&& sorted(ns[i]->Some_0.children)
    }
}

/// `children` with `(name, ino)` put in its sorted place.
pub open spec fn insert_child(children: Seq<(Seq<u8>, u64)>, name: Seq<u8>, ino: u64) -> Seq<(Seq<u8>, u64)> {
    let p = choose|p: int| sorted_pos(children, name, p);
    children.insert(p, (name, ino))
}

/// `n` with its generation moved on by one (wrapping).
pub open spec fn bumped(n: NodeView) -> NodeView {
    NodeView { attr: InodeAttr { generation: n.attr.generation.wrapping_add(1), ..n.attr }, ..n }
}

/// What `create` does: the outcome and the nodes after. A fresh node is
/// numbered before the directory is checked, and stays when the check fails.
pub open spec fn spec_create(ns: Seq<Option<NodeView>>, mount: u32, dir: InodeId, name: Seq<u8>,
    file_type: FileType, mode: InodeMode) -> (Result<InodeId, FsError>, Seq<Option<NodeView>>)
{
    if dir.mount != mount {
        (Err(FsError::NotFound), ns)
    } else if !is_utf8(name) || name.len() == 0 {
        (Err(FsError::Invalid), ns)
    } else {
        let ino = ns.len();
        let ns1 = ns.push(Some(fresh_node(ino as u64, file_type, mode)));
        let d = dir.ino as int;
        if d >= ns1.len() || ns1[d] is None {
            (Err(FsError::NotFound), ns1)
        } else if ns1[d]->Some_0.attr.file_type != FileType::Directory {
            (Err(FsError::NotDir), ns1)
        } else if child_index(ns1[d]->Some_0.children, name) is Some {
            (Err(FsError::Exists), ns1)
        } else {
            let n = ns1[d]->Some_0;
            let n2 = bumped(NodeView { children: insert_child(n.children, name, ino as u64), ..n });
            (Ok(InodeId { mount, ino: ino as u64 }), ns1.update(d, Some(n2)))
        }
    }
}

/// The nodes of a new filesystem: slot 0 unused, slot 1 the empty root
/// directory (mode 0755, two links).
pub open spec fn initial_nodes() -> Seq<Option<NodeView>> {
    seq![None, Some(NodeView {
        attr: InodeAttr { ino: ROOT_INO, mode: InodeMode { bits: 0o755 }, file_type: FileType::Directory,
            size: 0, nlink: 2, generation: 1, rdev: 0 },
        data: Seq::empty(),
        children: Seq::empty(),
        link: Seq::empty(),
    })]
}

/// The nodes after making each of `dirs` in turn in the root directory
/// (mode 0755), whatever each attempt answers.
pub open spec fn spec_root_dirs(ns: Seq<Option<NodeView>>, mount: u32, dirs: Seq<Seq<u8>>) -> Seq<Option<NodeView>>
    decreases dirs.len(),
{
    if dirs.len() == 0 {
        ns
    } else {
        let before = spec_root_dirs(ns, mount, dirs.drop_last());
        spec_create(before, mount, InodeId { mount, ino: ROOT_INO }, dirs.last(), FileType::Directory,
            InodeMode { bits: 0o755 }).1
    }
}

/// What `unlink` does: the outcome and the nodes after.
pub open spec fn spec_unlink(ns: Seq<Option<NodeView>>, mount: u32, dir: InodeId, name: Seq<u8>)
    -> (Result<(), FsError>, Seq<Option<NodeView>>)
{
    let d = dir.ino as int;
    if dir.mount != mount {
        (Err(FsError::NotFound), ns)
    } else if !is_utf8(name) {
        (Err(FsError::Invalid), ns)
    } else if d >= ns.len() || ns[d] is None {
        (Err(FsError::NotFound), ns)
    } else if ns[d]->Some_0.attr.file_type != FileType::Directory {
        (Err(FsError::NotDir), ns)
    } else if child_index(ns[d]->Some_0.children, name) is None {
        (Err(FsError::NotFound), ns)
    } else {
        let k = child_index(ns[d]->Some_0.children, name)->Some_0;
        let c = ns[d]->Some_0.children[k].1 as int;
        if c >= ns.len() || ns[c] is None {
            (Err(FsError::NotFound), ns)
        } else if ns[c]->Some_0.attr.file_type == FileType::Directory && ns[c]->Some_0.children.len() > 0 {
            (Err(FsError::NotSupported), ns)
        } else {
            let n = ns[d]->Some_0;
            let ns1 = ns.update(d, Some(NodeView { children: n.children.remove(k), ..n })).update(c, None);
            if c == d {
                (Ok(()), ns1)
            } else {
                (Ok(()), ns1.update(d, Some(bumped(ns1[d]->Some_0))))
            }
        }
    }
}

/// File bytes after writing `buf` at `start`: zero-filled up to `start` when
/// the file was shorter.
pub open spec fn written(data: Seq<u8>, start: int, buf: Seq<u8>) -> Seq<u8> {
    let end = start + buf.len();
    let len = if end > data.len() { end } else { data.len() as int };
    Seq::new(len as nat, |k: int| if start <= k < end { buf[k - start] } else if k < data.len() { data[k] } else { 0u8 })
}

/// File bytes after cutting or zero-extending to `size`.
pub open spec fn resized(data: Seq<u8>, size: int) -> Seq<u8> {
    Seq::new(size as nat, |k: int| if k < data.len() { data[k] } else { 0u8 })
}

pub struct TmpFs {
    nodes: Vec<Option<TmpNode>>,
    mount_id: u32,
}

impl TmpFs {
    /// The nodes by inode number; number `len` is the next to be given out.
    pub closed spec fn nodes(&self) -> Seq<Option<NodeView>> {
        view_nodes(self.nodes@)
    }

    pub closed spec fn mount(&self) -> u32 {
        self.mount_id
    }

    pub open spec fn node(&self, ino: int) -> Option<NodeView> {
        if 0 <= ino < self.nodes().len() {
            self.nodes()[ino]
        } else {
            None
        }
    }

    #[verifier::type_invariant]
    spec fn inv(self) -> bool {
        nodes_ok(view_nodes(self.nodes@))
    }

    pub open spec fn wf(&self) -> bool {
        nodes_ok(self.nodes())
    }

    /// The number an inode has here, or `NotFound` for another mount's inode.
    pub open spec fn local(&self, inode: InodeId) -> Result<u64, FsError> {
        if inode.mount != self.mount() {
            Err(FsError::NotFound)
        } else {
            Ok(inode.ino)
        }
    }

    /// A filesystem holding only its root directory (mode 0755, two links).
    pub fn new(mount_id: u32) -> (r: Self)
        ensures
            r.wf(),
            r.mount() == mount_id,
            r.nodes() == initial_nodes(),
    {
        let root = TmpNode {
            attr: InodeAttr { ino: ROOT_INO, mode: InodeMode::default_dir(), file_type: FileType::Directory,
                size: 0, nlink: 2, generation: 1, rdev: 0 },
            data: Vec::new(),
            children: Vec::new(),
            link_target: Vec::new(),
        };
        let mut nodes: Vec<Option<TmpNode>> = Vec::new();
        nodes.push(None);
        nodes.push(Some(root));
        proof {
            let v = view_nodes(nodes@);
            assert(v[1]->Some_0.children =~= Seq::<(Seq<u8>, u64)>::empty());
            assert(v[1]->Some_0.data =~= Seq::<u8>::empty());
            assert(v[1]->Some_0.link =~= Seq::<u8>::empty());
        }
        TmpFs { nodes, mount_id }
    }

    /// Makes each of `dirs` in the root directory, in order; names that fail
    /// are skipped.
    pub fn with_root_dirs(&mut self, dirs: &[&[u8]])
        ensures
            final(self).mount() == old(self).mount(),
            final(self).nodes() == spec_root_dirs(old(self).nodes(), old(self).mount(),
                dirs@.map_values(|d: &[u8]| d@)),
    {
        let root = InodeId::new(self.mount_id, ROOT_INO);
        let ghost names = dirs@.map_values(|d: &[u8]| d@);
        let mut i: usize = 0;
        while i < dirs.len()
            invariant
                0 <= i <= dirs@.len(),
                names == dirs@.map_values(|d: &[u8]| d@),
                self.mount() == old(self).mount(),
                root == (InodeId { mount: self.mount(), ino: ROOT_INO }),
                self.nodes() == spec_root_dirs(old(self).nodes(), old(self).mount(), names.take(i as int)),
            decreases dirs@.len() - i,
        {
            let _ = self.mkdir(root, dirs[i], InodeMode::default_dir());
            proof {
                assert(names.take(i + 1).drop_last() =~= names.take(i as int));
                assert(names.take(i + 1).last() == dirs@[i as int]@);
            }
            i = i + 1;
        }
        proof {
            assert(names.take(dirs@.len() as int) =~= names);
        }
    }

    fn id(&self, inode: InodeId) -> (r: Result<u64, FsError>)
        ensures
            r == self.local(inode),
    {
        if inode.mount != self.mount_id {
            return Err(FsError::NotFound);
        }
        Ok(inode.ino)
    }

    /// Moves the node table out, leaving an empty one.
    fn take_nodes(&mut self) -> (r: Vec<Option<TmpNode>>)
        ensures
            view_nodes(r@) == old(self).nodes(),
            final(self).mount() == old(self).mount(),
            nodes_ok(view_nodes(r@)),
    {
        proof {
            use_type_invariant(&*self);
        }
        let mut v: Vec<Option<TmpNode>> = Vec::new();
        proof {
            assert(view_nodes(v@) =~= Seq::<Option<NodeView>>::empty());
        }
        std::mem::swap(&mut v, &mut self.nodes);
        v
    }

    fn put_nodes(&mut self, v: Vec<Option<TmpNode>>)
        requires
            nodes_ok(view_nodes(v@)),
        ensures
            final(self).nodes() == view_nodes(v@),
            final(self).mount() == old(self).mount(),
    {
        self.nodes = v;
    }

    fn find_child(children: &Vec<DirChild>, name: &[u8]) -> (r: Option<usize>)
        ensures
            r matches Some(i) ==> i < children@.len() && children@[i as int].name@ == name@,
            r is None ==> forall|i: int| 0 <= i < children@.len() ==> (#[trigger] children@[i]).name@ != name@,
    {
        let mut i: usize = 0;
        while i < children.len()
            invariant
                0 <= i <= children@.len(),
                forall|j: int| 0 <= j < i ==> (#[trigger] children@[j]).name@ != name@,
            decreases children@.len() - i,
        {
            if name_eq(children[i].name.as_slice(), name) {
                return Some(i);
            }
            i = i + 1;
        }
        None
    }

    fn insert_pos(children: &Vec<DirChild>, name: &[u8]) -> (r: usize)
        ensures
            r <= children@.len(),
            forall|j: int| 0 <= j < r ==> lex_lt(#[trigger] children@[j].name@, name@),
            r < children@.len() ==> !lex_lt(children@[r as int].name@, name@),
    {
        let mut i: usize = 0;
        while i < children.len()
            invariant
                0 <= i <= children@.len(),
                forall|j: int| 0 <= j < i ==> lex_lt(#[trigger] children@[j].name@, name@),
            decreases children@.len() - i,
        {
            if !name_lt(children[i].name.as_slice(), name) {
                return i;
            }
            i = i + 1;
        }
        i
    }
}

proof fn lemma_child_index(children: Seq<(Seq<u8>, u64)>, name: Seq<u8>, i: int)
    requires
        sorted(children),
        0 <= i < children.len(),
        children[i].0 == name,
    ensures
        child_index(children, name) == Some(i),
{
    assert(0 <= i < children.len() && children[i].0 == name);
    let c = child_index(children, name)->Some_0;
    assert(0 <= c < children.len() && children[c].0 == name);
    if c < i {
        assert(lex_lt(children[c].0, children[i].0));
        lemma_lex_irreflexive(name);
    }
    if i < c {
        assert(lex_lt(children[i].0, children[c].0));
        lemma_lex_irreflexive(name);
    }
}

proof fn lemma_insert_sorted(children: Seq<(Seq<u8>, u64)>, name: Seq<u8>, ino: u64, p: int)
    requires
        sorted(children),
        sorted_pos(children, name, p),
        forall|i: int| 0 <= i < children.len() ==> (#[trigger] children[i]).0 != name,
    ensures
        sorted(children.insert(p, (name, ino))),
{
    let n = children.insert(p, (name, ino));
    if p < children.len() {
        lemma_lex_total(children[p].0, name);
    }
    assert forall|i: int, j: int| 0 <= i < j < n.len() implies lex_lt(#[trigger] n[i].0, #[trigger] n[j].0) by {
        if j < p {
            assert(n[i] == children[i] && n[j] == children[j]);
        } else if j == p {
            assert(n[i] == children[i]);
        } else if i == p {
            assert(n[j] == children[j - 1]);
            if j - 1 > p {
                assert(lex_lt(children[p].0, children[j - 1].0));
                lemma_lex_transitive(name, children[p].0, children[j - 1].0);
            }
        } else if i < p {
            assert(n[i] == children[i] && n[j] == children[j - 1]);
            if j - 1 == p {
                lemma_lex_transitive(children[i].0, name, children[p].0);
            } else {
                assert(lex_lt(children[p].0, children[j - 1].0));
                lemma_lex_transitive(children[i].0, name, children[p].0);
                lemma_lex_transitive(children[i].0, children[p].0, children[j - 1].0);
            }
        } else {
            assert(n[i] == children[i - 1] && n[j] == children[j - 1]);
        }
    }
}

proof fn lemma_sorted_pos_unique(children: Seq<(Seq<u8>, u64)>, name: Seq<u8>, p: int, q: int)
    requires
        sorted_pos(children, name, p),
        sorted_pos(children, name, q),
    ensures
        p == q,
{
    if p < q {
        assert(lex_lt(children[p].0, name));
    }
    if q < p {
        assert(lex_lt(children[q].0, name));
    }
}

proof fn lemma_view_update(v: Seq<Option<TmpNode>>, i: int, n: Option<TmpNode>)
    requires
        0 <= i < v.len(),
    ensures
        view_nodes(v.update(i, n)) == view_nodes(v).update(i, match n {
            Some(t) => Some(t@),
            None => None,
        }),
{
    assert(view_nodes(v.update(i, n)) =~= view_nodes(v).update(i, match n {
        Some(t) => Some(t@),
        None => None,
    }));
}

proof fn lemma_view_push(v: Seq<Option<TmpNode>>, n: Option<TmpNode>)
    ensures
        view_nodes(v.push(n)) == view_nodes(v).push(match n {
            Some(t) => Some(t@),
            None => None,
        }),
{
    assert(view_nodes(v.push(n)) =~= view_nodes(v).push(match n {
        Some(t) => Some(t@),
        None => None,
    }));
}

proof fn lemma_children_insert(c: Seq<DirChild>, p: int, x: DirChild)
    requires
        0 <= p <= c.len(),
    ensures
        children_view(c.insert(p, x)) == children_view(c).insert(p, (x.name@, x.ino)),
{
    assert(children_view(c.insert(p, x)) =~= children_view(c).insert(p, (x.name@, x.ino)));
}

proof fn lemma_children_remove(c: Seq<DirChild>, k: int)
    requires
        0 <= k < c.len(),
    ensures
        children_view(c.remove(k)) == children_view(c).remove(k),
{
    assert(children_view(c.remove(k)) =~= children_view(c).remove(k));
}

proof fn lemma_remove_sorted(children: Seq<(Seq<u8>, u64)>, k: int)
    requires
        sorted(children),
        0 <= k < children.len(),
    ensures
        sorted(children.remove(k)),
{
    let n = children.remove(k);
    assert forall|i: int, j: int| 0 <= i < j < n.len() implies lex_lt(#[trigger] n[i].0, #[trigger] n[j].0) by {
        let i0 = if i < k { i } else { i + 1 };
        let j0 = if j < k { j } else { j + 1 };
        assert(n[i] == children[i0] && n[j] == children[j0]);
    }
}

/// The bytes `read` serves: a symlink's target, else the file data.
pub open spec fn file_bytes(n: NodeView) -> Seq<u8> {
    if n.attr.file_type == FileType::Symlink { n.link } else { n.data }
}

/// What `getattr` answers on a node table.
pub open spec fn attr_in(ns: Seq<Option<NodeView>>, mount: u32, inode: InodeId) -> Result<InodeAttr, FsError> {
    let i = inode.ino as int;
    if inode.mount != mount {
        Err(FsError::NotFound)
    } else if i >= ns.len() || ns[i] is None {
        Err(FsError::NotFound)
    } else {
        Ok(ns[i]->Some_0.attr)
    }
}

/// What `lookup` answers on a node table.
pub open spec fn lookup_in(ns: Seq<Option<NodeView>>, mount: u32, dir: InodeId, name: Seq<u8>) -> Result<InodeId, FsError> {
    let d = dir.ino as int;
    if dir.mount != mount {
        Err(FsError::NotFound)
    } else if !is_utf8(name) {
        Err(FsError::Invalid)
    } else if d >= ns.len() || ns[d] is None {
        Err(FsError::NotFound)
    } else if ns[d]->Some_0.attr.file_type != FileType::Directory {
        Err(FsError::NotDir)
    } else {
        match child_index(ns[d]->Some_0.children, name) {
            Some(k) => Ok(InodeId { mount, ino: ns[d]->Some_0.children[k].1 }),
            None => Err(FsError::NotFound),
        }
    }
}

/// How many bytes `read` copies, or its error.
pub open spec fn spec_read(ns: Seq<Option<NodeView>>, mount: u32, inode: InodeId, offset: u64, buf_len: int) -> Result<int, FsError> {
    let i = inode.ino as int;
    if inode.mount != mount {
        Err(FsError::NotFound)
    } else if i >= ns.len() || ns[i] is None {
        Err(FsError::NotFound)
    } else if ns[i]->Some_0.attr.file_type != FileType::Regular && ns[i]->Some_0.attr.file_type != FileType::Symlink {
        Err(FsError::NotFile)
    } else {
        let bytes = file_bytes(ns[i]->Some_0);
        if offset >= bytes.len() {
            Ok(0)
        } else {
            let avail = bytes.len() - offset;
            Ok(if buf_len < avail { buf_len } else { avail })
        }
    }
}

/// What `write` does: the outcome and the nodes after.
pub open spec fn spec_write(ns: Seq<Option<NodeView>>, mount: u32, inode: InodeId, offset: u64, buf: Seq<u8>)
    -> (Result<usize, FsError>, Seq<Option<NodeView>>)
{
    let i = inode.ino as int;
    if inode.mount != mount {
        (Err(FsError::NotFound), ns)
    } else if i >= ns.len() || ns[i] is None {
        (Err(FsError::NotFound), ns)
    } else if ns[i]->Some_0.attr.file_type != FileType::Regular {
        (Err(FsError::NotFile), ns)
    } else if offset + buf.len() > usize::MAX {
        (Err(FsError::NoSpace), ns)
    } else {
        let n = ns[i]->Some_0;
        let data = written(n.data, offset as int, buf);
        (Ok(buf.len() as usize), ns.update(i, Some(bumped(NodeView { attr: InodeAttr { size: data.len() as u64, ..n.attr }, data, ..n }))))
    }
}

/// What `truncate` does: the outcome and the nodes after.
pub open spec fn spec_truncate(ns: Seq<Option<NodeView>>, mount: u32, inode: InodeId, size: u64)
    -> (Result<(), FsError>, Seq<Option<NodeView>>)
{
    let i = inode.ino as int;
    if inode.mount != mount {
        (Err(FsError::NotFound), ns)
    } else if i >= ns.len() || ns[i] is None {
        (Err(FsError::NotFound), ns)
    } else if ns[i]->Some_0.attr.file_type != FileType::Regular {
        (Err(FsError::NotFile), ns)
    } else {
        let n = ns[i]->Some_0;
        (Ok(()), ns.update(i, Some(bumped(NodeView {
            attr: InodeAttr { size, ..n.attr },
            data: resized(n.data, (size as usize) as int),
            ..n
        }))))
    }
}

/// What `symlink` does: a symlink node made as `create` makes one, then
/// given its target and size.
pub open spec fn spec_symlink(ns: Seq<Option<NodeView>>, mount: u32, dir: InodeId, name: Seq<u8>, target: Seq<u8>,
    mode: InodeMode) -> (Result<InodeId, FsError>, Seq<Option<NodeView>>)
{
    let (r, ns1) = spec_create(ns, mount, dir, name, FileType::Symlink, mode);
    match r {
        Err(e) => (Err(e), ns1),
        Ok(id) => {
            let n = ns1[id.ino as int]->Some_0;
            (Ok(id), ns1.update(id.ino as int, Some(NodeView {
                attr: InodeAttr { size: target.len() as u64, ..n.attr },
                link: target,
                ..n
            })))
        },
    }
}

/// Entry `index` of a directory listing: `.`, `..`, then the names in
/// order; `None` past the end.
pub open spec fn spec_readdir(ns: Seq<Option<NodeView>>, mount: u32, dir: InodeId, index: u64)
    -> Result<Option<(Seq<u8>, InodeId, FileType)>, FsError>
{
    let d = dir.ino as int;
    if dir.mount != mount {
        Err(FsError::NotFound)
    } else if d >= ns.len() || ns[d] is None {
        Err(FsError::NotFound)
    } else if ns[d]->Some_0.attr.file_type != FileType::Directory {
        Err(FsError::NotDir)
    } else if index == 0 {
        Ok(Some((seq![0x2eu8], dir, FileType::Directory)))
    } else if index == 1 {
        Ok(Some((seq![0x2eu8, 0x2eu8], dir, FileType::Directory)))
    } else if index - 2 >= ns[d]->Some_0.children.len() {
        Ok(None)
    } else {
        let c = ns[d]->Some_0.children[index - 2];
        let shown = if c.0.len() < DIRENT_NAME_MAX { c.0 } else { c.0.subrange(0, DIRENT_NAME_MAX as int) };
        let ft = if (c.1 as int) < ns.len() && ns[c.1 as int] is Some { ns[c.1 as int]->Some_0.attr.file_type } else { FileType::Regular };
        Ok(Some((shown, InodeId { mount, ino: c.1 }, ft)))
    }
}

proof fn lemma_create_ok(ns: Seq<Option<NodeView>>, mount: u32, dir: InodeId, name: Seq<u8>, file_type: FileType, mode: InodeMode)
    requires
        ns.len() <= usize::MAX,
    ensures
        ({
            let (r, ns2) = spec_create(ns, mount, dir, name, file_type, mode);
            r matches Ok(id) ==> id.ino == ns.len() && id.mount == mount && ns2.len() == ns.len() + 1
                && ns2[id.ino as int] is Some
        }),
{
    let ino = ns.len();
    let ns1 = ns.push(Some(fresh_node(ino as u64, file_type, mode)));
    let d = dir.ino as int;
    assert(ns1[ino as int] is Some);
    if dir.mount == mount && is_utf8(name) && name.len() > 0 && d < ns1.len() && ns1[d] is Some {
        let n = ns1[d]->Some_0;
        let n2 = bumped(NodeView { children: insert_child(n.children, name, ino as u64), ..n });
        assert(ns1.update(d, Some(n2))[ino as int] is Some);
    }
}

/// Takes node `i` out of the table, leaving `None`.
fn take_slot(nodes: &mut Vec<Option<TmpNode>>, i: usize) -> (r: Option<TmpNode>)
    requires
        i < old(nodes)@.len(),
    ensures
        r == old(nodes)@[i as int],
        final(nodes)@ == old(nodes)@.update(i as int, None),
        view_nodes(final(nodes)@) == view_nodes(old(nodes)@).update(i as int, None),
{
    let mut slot: Option<TmpNode> = None;
    std::mem::swap(&mut slot, &mut nodes[i]);
    proof {
        lemma_view_update(old(nodes)@, i as int, None);
    }
    slot
}

/// Puts `n` at `i`.
fn put_slot(nodes: &mut Vec<Option<TmpNode>>, i: usize, n: TmpNode)
    requires
        i < old(nodes)@.len(),
    ensures
        final(nodes)@ == old(nodes)@.update(i as int, Some(n)),
        view_nodes(final(nodes)@) == view_nodes(old(nodes)@).update(i as int, Some(n@)),
{
    proof {
        lemma_view_update(old(nodes)@, i as int, Some(n));
    }
    nodes.set(i, Some(n));
}

impl TmpFs {
    /// Makes a node for `name` in `dir` (see `spec_create`).
    fn create_entry(&mut self, dir: InodeId, name: &[u8], file_type: FileType, mode: InodeMode) -> (r: Result<InodeId, FsError>)
        ensures
            (r, final(self).nodes()) == spec_create(old(self).nodes(), old(self).mount(), dir, name@, file_type, mode),
            final(self).mount() == old(self).mount(),
    {
        let dir_ino = self.id(dir)?;
        if !utf8_ok(name) || name.len() == 0 {
            return Err(FsError::Invalid);
        }
        let mut nodes = self.take_nodes();
        let ghost ns = view_nodes(nodes@);
        let ino = nodes.len() as u64;
        let fresh = TmpNode {
            attr: InodeAttr { ino, mode, file_type, size: 0, nlink: 1, generation: 1, rdev: 0 },
            data: Vec::new(),
            children: Vec::new(),
            link_target: Vec::new(),
        };
        proof {
            assert(fresh@.children =~= Seq::<(Seq<u8>, u64)>::empty());
            assert(fresh@.data =~= Seq::<u8>::empty());
            assert(fresh@.link =~= Seq::<u8>::empty());
            assert(fresh@ == fresh_node(ino, file_type, mode));
            lemma_view_push(nodes@, Some(fresh));
        }
        nodes.push(Some(fresh));
        let ghost ns1 = view_nodes(nodes@);
        assert(ns1 == ns.push(Some(fresh_node(ino, file_type, mode))));
        if dir_ino >= nodes.len() as u64 {
            self.put_nodes(nodes);
            return Err(FsError::NotFound);
        }
        let d = dir_ino as usize;
        let ghost pre_slot = nodes@;
        let slot = take_slot(&mut nodes, d);
        let mut node = match slot {
            None => {
                proof {
                    assert(view_nodes(nodes@) =~= ns1);
                }
                self.put_nodes(nodes);
                return Err(FsError::NotFound);
            },
            Some(n) => n,
        };
        let ghost before = node@;
        assert(ns1[d as int] == Some(before));
        if node.attr.file_type != FileType::Directory {
            put_slot(&mut nodes, d, node);
            assert(view_nodes(nodes@) =~= ns1);
            self.put_nodes(nodes);
            return Err(FsError::NotDir);
        }
        if let Some(k) = Self::find_child(&node.children, name) {
            proof {
                assert(children_view(node.children@)[k as int].0 == name@);
                lemma_child_index(children_view(node.children@), name@, k as int);
                }
            put_slot(&mut nodes, d, node);
            assert(view_nodes(nodes@) =~= ns1);
            self.put_nodes(nodes);
            return Err(FsError::Exists);
        }
        let pos = Self::insert_pos(&node.children, name);
        let ghost cv = children_view(node.children@);
        proof {
            assert(forall|i: int| 0 <= i < cv.len() ==> (#[trigger] cv[i]).0 != name@) by {
                assert forall|i: int| 0 <= i < cv.len() implies (#[trigger] cv[i]).0 != name@ by {
                    assert(node.children@[i].name@ != name@);
                }
            }
            assert(child_index(cv, name@) is None);
            assert(sorted_pos(cv, name@, pos as int)) by {
                assert forall|j: int| 0 <= j < pos implies lex_lt(#[trigger] cv[j].0, name@) by {
                    assert(lex_lt(node.children@[j].name@, name@));
                }
            }
            let q = choose|q: int| sorted_pos(cv, name@, q);
            lemma_sorted_pos_unique(cv, name@, pos as int, q);
            lemma_insert_sorted(cv, name@, ino, pos as int);
        }
        let child = DirChild { name: copy_bytes(name), ino };
        proof {
            lemma_children_insert(node.children@, pos as int, child);
        }
        node.children.insert(pos, child);
        node.attr.generation = node.attr.generation.wrapping_add(1);
        proof {
            assert(node@ == bumped(NodeView { children: insert_child(before.children, name@, ino), ..before }));
        }
        put_slot(&mut nodes, d, node);
        self.put_nodes(nodes);
        Ok(InodeId::new(self.mount_id, ino))
    }

    /// Removes `name` from `dir` (see `spec_unlink`).
    fn unlink_entry(&mut self, dir: InodeId, name: &[u8]) -> (r: Result<(), FsError>)
        ensures
            (r, final(self).nodes()) == spec_unlink(old(self).nodes(), old(self).mount(), dir, name@),
            final(self).mount() == old(self).mount(),
    {
        let dir_ino = self.id(dir)?;
        if !utf8_ok(name) {
            return Err(FsError::Invalid);
        }
        let mut nodes = self.take_nodes();
        let ghost ns = view_nodes(nodes@);
        if dir_ino >= nodes.len() as u64 {
            self.put_nodes(nodes);
            return Err(FsError::NotFound);
        }
        let d = dir_ino as usize;
        let (k, c) = match &nodes[d] {
            None => {
                self.put_nodes(nodes);
                return Err(FsError::NotFound);
            },
            Some(n) => {
                assert(ns[d as int] == Some(n@));
                if n.attr.file_type != FileType::Directory {
                    self.put_nodes(nodes);
                    return Err(FsError::NotDir);
                }
                match Self::find_child(&n.children, name) {
                    None => {
                        proof {
                            assert forall|i: int| 0 <= i < children_view(n.children@).len()
                                implies children_view(n.children@)[i].0 != name@ by {
                                assert(n.children@[i].name@ != name@);
                            }
                        }
                        self.put_nodes(nodes);
                        return Err(FsError::NotFound);
                    },
                    Some(k) => {
                        proof {
                            assert(children_view(n.children@)[k as int].0 == name@);
                            lemma_child_index(children_view(n.children@), name@, k as int);
                        }
                        (k, n.children[k].ino)
                    },
                }
            },
        };
        if c >= nodes.len() as u64 {
            self.put_nodes(nodes);
            return Err(FsError::NotFound);
        }
        let cu = c as usize;
        match &nodes[cu] {
            None => {
                self.put_nodes(nodes);
                return Err(FsError::NotFound);
            },
            Some(cn) => {
                assert(ns[cu as int] == Some(cn@));
                if cn.attr.file_type == FileType::Directory && cn.children.len() > 0 {
                    self.put_nodes(nodes);
                    return Err(FsError::NotSupported);
                }
            },
        }
        let ghost pre_slot = nodes@;
        let slot = take_slot(&mut nodes, d);
        let mut node = slot.unwrap();
        let ghost before = node@;
        proof {
            lemma_children_remove(node.children@, k as int);
            lemma_remove_sorted(before.children, k as int);
        }
        node.children.remove(k);
        put_slot(&mut nodes, d, node);
        let _ = take_slot(&mut nodes, cu);
        let ghost ns1 = view_nodes(nodes@);
        assert(ns1 == ns.update(d as int, Some(NodeView { children: before.children.remove(k as int), ..before })).update(cu as int, None));
        if cu != d {
            let ghost pre_slot2 = nodes@;
            let slot2 = take_slot(&mut nodes, d);
            let mut node2 = slot2.unwrap();
            node2.attr.generation = node2.attr.generation.wrapping_add(1);
            put_slot(&mut nodes, d, node2);
        }
        self.put_nodes(nodes);
        Ok(())
    }

    /// Sets the size of a file's data (see `spec_truncate`).
    fn truncate_node(&mut self, inode: InodeId, size: u64) -> (r: Result<(), FsError>)
        ensures
            (r, final(self).nodes()) == spec_truncate(old(self).nodes(), old(self).mount(), inode, size),
            final(self).mount() == old(self).mount(),
    {
        let ino = self.id(inode)?;
        let mut nodes = self.take_nodes();
        let ghost ns = view_nodes(nodes@);
        if ino >= nodes.len() as u64 {
            self.put_nodes(nodes);
            return Err(FsError::NotFound);
        }
        let i = ino as usize;
        let ghost pre_slot = nodes@;
        let slot = take_slot(&mut nodes, i);
        let mut node = match slot {
            None => {
                assert(view_nodes(nodes@) =~= ns);
                self.put_nodes(nodes);
                return Err(FsError::NotFound);
            },
            Some(n) => n,
        };
        let ghost before = node@;
        assert(ns[i as int] == Some(before));
        if node.attr.file_type != FileType::Regular {
            put_slot(&mut nodes, i, node);
            assert(view_nodes(nodes@) =~= ns);
            self.put_nodes(nodes);
            return Err(FsError::NotFile);
        }
        node.data.resize(size as usize, 0u8);
        assert(node.data@ =~= resized(before.data, (size as usize) as int));
        node.attr.size = size;
        node.attr.generation = node.attr.generation.wrapping_add(1);
        put_slot(&mut nodes, i, node);
        self.put_nodes(nodes);
        Ok(())
    }
}

impl FileSystem for TmpFs {
    open spec fn root_spec(&self) -> InodeId {
        InodeId { mount: self.mount(), ino: ROOT_INO }
    }

    open spec fn attr_of(&self, inode: InodeId) -> Result<InodeAttr, FsError> {
        attr_in(self.nodes(), self.mount(), inode)
    }

    open spec fn child_of(&self, dir: InodeId, name: Seq<u8>) -> Result<InodeId, FsError> {
        lookup_in(self.nodes(), self.mount(), dir, name)
    }

    open spec fn link_of(&self, inode: InodeId) -> Result<Seq<u8>, FsError> {
        match self.local(inode) {
            Err(e) => Err(e),
            Ok(i) => match self.node(i as int) {
                None => Err(FsError::NotFound),
                Some(n) => if n.attr.file_type != FileType::Symlink { Err(FsError::NotSymlink) } else { Ok(n.link) },
            },
        }
    }

    fn fs_type(&self) -> (r: &'static str)
        ensures
            r@ == "tmpfs"@,
    {
        "tmpfs"
    }

    fn root(&self) -> (r: InodeId) {
        InodeId::new(self.mount_id, ROOT_INO)
    }

    fn getattr(&self, inode: InodeId) -> (r: Result<InodeAttr, FsError>) {
        let ino = self.id(inode)?;
        if ino >= self.nodes.len() as u64 {
            return Err(FsError::NotFound);
        }
        match &self.nodes[ino as usize] {
            Some(n) => Ok(n.attr),
            None => Err(FsError::NotFound),
        }
    }

    fn lookup(&self, dir: InodeId, name: &[u8]) -> (r: Result<InodeId, FsError>) {
        proof {
            use_type_invariant(self);
        }
        let d = self.id(dir)?;
        if !utf8_ok(name) {
            return Err(FsError::Invalid);
        }
        if d >= self.nodes.len() as u64 {
            return Err(FsError::NotFound);
        }
        match &self.nodes[d as usize] {
            None => Err(FsError::NotFound),
            Some(n) => {
                if n.attr.file_type != FileType::Directory {
                    return Err(FsError::NotDir);
                }
                match Self::find_child(&n.children, name) {
                    Some(k) => {
                        proof {
                            assert(self.nodes()[d as int] == Some(n@));
                            assert(children_view(n.children@)[k as int].0 == name@);
                            lemma_child_index(children_view(n.children@), name@, k as int);
                        }
                        Ok(InodeId::new(self.mount_id, n.children[k].ino))
                    },
                    None => {
                        proof {
                            assert(self.nodes()[d as int] == Some(n@));
                            assert forall|i: int| 0 <= i < children_view(n.children@).len()
                                implies children_view(n.children@)[i].0 != name@ by {
                                assert(n.children@[i].name@ != name@);
                            }
                        }
                        Err(FsError::NotFound)
                    },
                }
            },
        }
    }

    open spec fn create_done(&self, after: Self, dir: InodeId, name: Seq<u8>, file_type: FileType, mode: InodeMode, r: Result<InodeId, FsError>) -> bool {
        after.mount() == self.mount() && (r, after.nodes()) == spec_create(self.nodes(), self.mount(), dir, name, file_type, mode)
    }

    fn create(&mut self, dir: InodeId, name: &[u8], file_type: FileType, mode: InodeMode) -> (r: Result<InodeId, FsError>)
    {
        self.create_entry(dir, name, file_type, mode)
    }

    open spec fn mkdir_done(&self, after: Self, dir: InodeId, name: Seq<u8>, mode: InodeMode, r: Result<InodeId, FsError>) -> bool {
        after.mount() == self.mount() && (r, after.nodes()) == spec_create(self.nodes(), self.mount(), dir, name, FileType::Directory, mode)
    }

    fn mkdir(&mut self, dir: InodeId, name: &[u8], mode: InodeMode) -> (r: Result<InodeId, FsError>)
    {
        self.create(dir, name, FileType::Directory, mode)
    }

    open spec fn unlink_done(&self, after: Self, dir: InodeId, name: Seq<u8>, r: Result<(), FsError>) -> bool {
        after.mount() == self.mount() && (r, after.nodes()) == spec_unlink(self.nodes(), self.mount(), dir, name)
    }

    fn unlink(&mut self, dir: InodeId, name: &[u8]) -> (r: Result<(), FsError>)
    {
        self.unlink_entry(dir, name)
    }

    open spec fn read_result(&self, inode: InodeId, offset: u64, buf: Seq<u8>) -> (Result<usize, FsError>, Seq<u8>) {
        match spec_read(self.nodes(), self.mount(), inode, offset, buf.len() as int) {
            Err(e) => (Err(e), buf),
            Ok(n) => (Ok(n as usize), if n == 0 {
                buf
            } else {
                overlay(buf, file_bytes(self.nodes()[inode.ino as int]->Some_0).subrange(offset as int, offset + n))
            }),
        }
    }

    fn read(&self, inode: InodeId, offset: u64, buf: &mut Vec<u8>) -> (r: Result<usize, FsError>)
    {
        let ino = self.id(inode)?;
        if ino >= self.nodes.len() as u64 {
            return Err(FsError::NotFound);
        }
        match &self.nodes[ino as usize] {
            None => Err(FsError::NotFound),
            Some(node) => {
                assert(self.nodes()[ino as int] == Some(node@));
                if node.attr.file_type != FileType::Regular && node.attr.file_type != FileType::Symlink {
                    return Err(FsError::NotFile);
                }
                let data: &Vec<u8> = if node.attr.file_type == FileType::Symlink { &node.link_target } else { &node.data };
                if offset >= data.len() as u64 {
                    return Ok(0);
                }
                let dlen = data.len();
                let start = offset as usize;
                let avail = dlen - start;
                let cnt = if buf.len() < avail { buf.len() } else { avail };
                let mut i: usize = 0;
                while i < cnt
                    invariant
                        0 <= i <= cnt,
                        cnt <= buf@.len(),
                        dlen == data@.len(),
                        start + cnt <= dlen,
                        buf@.len() == old(buf)@.len(),
                        forall|j: int| 0 <= j < i ==> #[trigger] buf@[j] == data@[start + j],
                        forall|j: int| i <= j < buf@.len() ==> #[trigger] buf@[j] == old(buf)@[j],
                    decreases cnt - i,
                {
                    buf.set(i, data[start + i]);
                    i = i + 1;
                }
                assert(buf@ =~= overlay(old(buf)@, data@.subrange(start as int, start + cnt)));
                Ok(cnt)
            },
        }
    }

    open spec fn write_done(&self, after: Self, inode: InodeId, offset: u64, buf: Seq<u8>, r: Result<usize, FsError>) -> bool {
        after.mount() == self.mount() && (r, after.nodes()) == spec_write(self.nodes(), self.mount(), inode, offset, buf)
    }

    fn write(&mut self, inode: InodeId, offset: u64, buf: &[u8]) -> (r: Result<usize, FsError>)
    {
        let ino = self.id(inode)?;
        let mut nodes = self.take_nodes();
        let ghost ns = view_nodes(nodes@);
        if ino >= nodes.len() as u64 {
            self.put_nodes(nodes);
            return Err(FsError::NotFound);
        }
        let i = ino as usize;
        let ghost pre_slot = nodes@;
        let slot = take_slot(&mut nodes, i);
        let mut node = match slot {
            None => {
                assert(view_nodes(nodes@) =~= ns);
                self.put_nodes(nodes);
                return Err(FsError::NotFound);
            },
            Some(n) => n,
        };
        let ghost before = node@;
        assert(ns[i as int] == Some(before));
        if node.attr.file_type != FileType::Regular || offset > (usize::MAX - buf.len()) as u64 {
            let not_file = node.attr.file_type != FileType::Regular;
            put_slot(&mut nodes, i, node);
            assert(view_nodes(nodes@) =~= ns);
            self.put_nodes(nodes);
            if not_file {
                return Err(FsError::NotFile);
            }
            return Err(FsError::NoSpace);
        }
        let start = offset as usize;
        let end = start + buf.len();
        if end > node.data.len() {
            node.data.resize(end, 0u8);
        }
        let ghost grown = node.data@;
        let mut k: usize = 0;
        while k < buf.len()
            invariant
                0 <= k <= buf@.len(),
                end == start + buf@.len(),
                node.data@.len() == grown.len(),
                end <= grown.len(),
                node.attr == before.attr,
                children_view(node.children@) == before.children,
                node.link_target@ == before.link,
                forall|j: int| 0 <= j < k ==> #[trigger] node.data@[start + j] == buf@[j],
                forall|j: int| 0 <= j < grown.len() && !(start <= j < start + k) ==> #[trigger] node.data@[j] == grown[j],
            decreases buf@.len() - k,
        {
            node.data.set(start + k, buf[k]);
            k = k + 1;
        }
        proof {
            assert forall|j: int| 0 <= j < grown.len() implies #[trigger] grown[j] == (if j < before.data.len() { before.data[j] } else { 0u8 }) by {
                if j >= before.data.len() {
                    assert(end > before.data.len());
                }
            }
            assert(node.data@ =~= written(before.data, start as int, buf@)) by {
                assert forall|j: int| 0 <= j < node.data@.len() implies #[trigger] node.data@[j] == written(before.data, start as int, buf@)[j] by {
                    if start <= j < end {
                        assert(node.data@[start + (j - start)] == buf@[j - start]);
                    }
                }
            }
        }
        node.attr.size = node.data.len() as u64;
        node.attr.generation = node.attr.generation.wrapping_add(1);
        assert(node@.data == written(before.data, start as int, buf@));
        assert(node@.children == before.children);
        assert(node@.link == before.link);
        assert(node@.attr == bumped(NodeView { attr: InodeAttr { size: node.data@.len() as u64, ..before.attr }, data: written(before.data, start as int, buf@), ..before }).attr);
        assert(node@ == bumped(NodeView { attr: InodeAttr { size: node.data@.len() as u64, ..before.attr }, data: written(before.data, start as int, buf@), ..before }));
        put_slot(&mut nodes, i, node);
        assert(view_nodes(nodes@) =~= ns.update(i as int, Some(node@)));
        self.put_nodes(nodes);
        Ok(buf.len())
    }

    open spec fn readdir_result(&self, dir: InodeId, index: u64) -> Result<Option<(Seq<u8>, InodeId, FileType)>, FsError> {
        spec_readdir(self.nodes(), self.mount(), dir, index)
    }

    fn readdir(&self, dir: InodeId, index: u64, entry: &mut DirEntry) -> (r: Result<bool, FsError>)
    {
        let d = self.id(dir)?;
        if d >= self.nodes.len() as u64 {
            return Err(FsError::NotFound);
        }
        let n = match &self.nodes[d as usize] {
            None => return Err(FsError::NotFound),
            Some(n) => n,
        };
        assert(self.nodes()[d as int] == Some(n@));
        if n.attr.file_type != FileType::Directory {
            return Err(FsError::NotDir);
        }
        if index == 0 {
            let mut name: Vec<u8> = Vec::new();
            name.push(0x2e);
            entry.name = name;
            entry.inode = dir;
            entry.file_type = FileType::Directory;
            assert(entry.name@ =~= seq![0x2eu8]);
            return Ok(true);
        }
        if index == 1 {
            let mut name: Vec<u8> = Vec::new();
            name.push(0x2e);
            name.push(0x2e);
            entry.name = name;
            entry.inode = dir;
            entry.file_type = FileType::Directory;
            assert(entry.name@ =~= seq![0x2eu8, 0x2eu8]);
            return Ok(true);
        }
        if index - 2 >= n.children.len() as u64 {
            return Ok(false);
        }
        let idx = (index - 2) as usize;
        let c = &n.children[idx];
        assert(children_view(n.children@)[idx as int] == (c.name@, c.ino));
        let shown_len = if c.name.len() < DIRENT_NAME_MAX { c.name.len() } else { DIRENT_NAME_MAX };
        let mut name: Vec<u8> = Vec::new();
        let mut i: usize = 0;
        while i < shown_len
            invariant
                0 <= i <= shown_len,
                shown_len <= c.name@.len(),
                name@ == c.name@.subrange(0, i as int),
            decreases shown_len - i,
        {
            name.push(c.name[i]);
            assert(name@ =~= c.name@.subrange(0, i + 1));
            i = i + 1;
        }
        if shown_len == c.name.len() {
            assert(c.name@.subrange(0, shown_len as int) =~= c.name@);
        }
        let ft = if c.ino < self.nodes.len() as u64 {
            match &self.nodes[c.ino as usize] {
                Some(cn) => {
                    assert(self.nodes()[c.ino as int] == Some(cn@));
                    cn.attr.file_type
                },
                None => FileType::Regular,
            }
        } else {
            FileType::Regular
        };
        entry.name = name;
        entry.inode = InodeId::new(self.mount_id, c.ino);
        entry.file_type = ft;
        Ok(true)
    }

    fn readlink(&self, inode: InodeId, buf: &mut Vec<u8>) -> (r: Result<usize, FsError>) {
        let ino = self.id(inode)?;
        if ino >= self.nodes.len() as u64 {
            return Err(FsError::NotFound);
        }
        match &self.nodes[ino as usize] {
            None => Err(FsError::NotFound),
            Some(node) => {
                assert(self.nodes()[ino as int] == Some(node@));
                if node.attr.file_type != FileType::Symlink {
                    return Err(FsError::NotSymlink);
                }
                let t = copy_bytes(node.link_target.as_slice());
                let len = t.len();
                *buf = t;
                Ok(len)
            },
        }
    }

    open spec fn symlink_done(&self, after: Self, dir: InodeId, name: Seq<u8>, target: Seq<u8>, mode: InodeMode, r: Result<InodeId, FsError>) -> bool {
        after.mount() == self.mount() && (r, after.nodes()) == spec_symlink(self.nodes(), self.mount(), dir, name, target, mode)
    }

    fn symlink(&mut self, dir: InodeId, name: &[u8], target: &[u8], mode: InodeMode) -> (r: Result<InodeId, FsError>)
    {
        let ghost ns0 = self.nodes();
        let cur_len = self.nodes.len();
        assert(ns0.len() == cur_len);
        let id = self.create(dir, name, FileType::Symlink, mode)?;
        proof {
            lemma_create_ok(ns0, self.mount(), dir, name@, FileType::Symlink, mode);
        }
        let ino = self.id(id)?;
        let mut nodes = self.take_nodes();
        let ghost ns1 = view_nodes(nodes@);
        let i = ino as usize;
        let ghost pre_slot = nodes@;
        let slot = take_slot(&mut nodes, i);
        let mut node = slot.unwrap();
        let ghost before = node@;
        node.link_target = copy_bytes(target);
        node.attr.size = node.link_target.len() as u64;
        put_slot(&mut nodes, i, node);
        assert(view_nodes(nodes@) =~= ns1.update(i as int, Some(node@)));
        self.put_nodes(nodes);
        Ok(id)
    }

    open spec fn truncate_done(&self, after: Self, inode: InodeId, size: u64, r: Result<(), FsError>) -> bool {
        after.mount() == self.mount() && (r, after.nodes()) == spec_truncate(self.nodes(), self.mount(), inode, size)
    }

    fn truncate(&mut self, inode: InodeId, size: u64) -> (r: Result<(), FsError>)
    {
        self.truncate_node(inode, size)
    }
}

/// A successful truncate of a file to `size` makes `getattr` report that
/// size, with the file still a regular file of the same inode number, mode
/// and link count and a new generation; its bytes are then `size` long (as
/// far as a size fits the address space), the old bytes up to `size` kept
/// and any new ones zero. Truncating anything but an existing regular file
/// of this filesystem fails.
pub proof fn lemma_truncate_sets_size(before: TmpFs, after: TmpFs, inode: InodeId, size: u64, r: Result<(), FsError>)
    requires
        before.truncate_done(after, inode, size, r),
    ensures
        r is Ok <==> (before.attr_of(inode) matches Ok(b) && b.file_type == FileType::Regular),
        r is Ok ==> {
            &&& before.attr_of(inode) matches Ok(b)
            &&& after.attr_of(inode) matches Ok(a)
            &&& a.size == size
            &&& a.file_type == FileType::Regular
            &&& a.ino == b.ino && a.mode == b.mode && a.nlink == b.nlink
            &&& a.generation == b.generation.wrapping_add(1)
        },
        r is Ok && size <= usize::MAX ==> {
            let old_bytes = before.node(inode.ino as int)->Some_0.data;
            let new_bytes = after.node(inode.ino as int)->Some_0.data;
            &&& new_bytes.len() == size
            &&& forall|k: int| 0 <= k < size && k < old_bytes.len() ==> #[trigger] new_bytes[k] == old_bytes[k]
            &&& forall|k: int| old_bytes.len() <= k < size ==> #[trigger] new_bytes[k] == 0u8
        },
        r is Err ==> after.nodes() == before.nodes(),
{
}

/// A successful write of `buf` at `offset` into a file reports all of
/// `buf` written; afterwards the file holds `buf` at `offset`, its old bytes
/// elsewhere and zeros in any gap, its length is the larger of its old
/// length and `offset + buf.len()`, `getattr` reports that length as the
/// size (for any file whose old length fits a u64), and the generation
/// moves on. Writing anything but an existing
/// regular file of this filesystem fails and changes nothing.
pub proof fn lemma_write_places_bytes(before: TmpFs, after: TmpFs, inode: InodeId, offset: u64, buf: Seq<u8>,
    r: Result<usize, FsError>)
    requires
        before.write_done(after, inode, offset, buf, r),
    ensures
        r is Ok ==> (before.attr_of(inode) matches Ok(b) && b.file_type == FileType::Regular),
        r is Ok ==> {
            let old_bytes = before.node(inode.ino as int)->Some_0.data;
            let new_bytes = after.node(inode.ino as int)->Some_0.data;
            let end = offset + buf.len();
            &&& r == Ok::<usize, FsError>(buf.len() as usize)
            &&& new_bytes.len() == if end > old_bytes.len() { end } else { old_bytes.len() as int }
            &&& forall|k: int| 0 <= k < buf.len() ==> #[trigger] new_bytes[offset + k] == buf[k]
            &&& forall|k: int| 0 <= k < new_bytes.len() && !(offset <= k < end) && k < old_bytes.len()
                ==> #[trigger] new_bytes[k] == old_bytes[k]
            &&& forall|k: int| old_bytes.len() <= k < offset ==> #[trigger] new_bytes[k] == 0u8
            &&& after.attr_of(inode) matches Ok(a) && (old_bytes.len() <= u64::MAX ==> a.size == new_bytes.len())
                && a.generation == before.attr_of(inode)->Ok_0.generation.wrapping_add(1)
        },
        r is Err ==> after.nodes() == before.nodes(),
{
    if r is Ok {
        let old_bytes = before.node(inode.ino as int)->Some_0.data;
        let new_bytes = after.node(inode.ino as int)->Some_0.data;
        assert(new_bytes == written(old_bytes, offset as int, buf));
        assert forall|k: int| 0 <= k < buf.len() implies #[trigger] new_bytes[offset + k] == buf[k] by {
            assert(new_bytes == written(old_bytes, offset as int, buf));
        }
    }
}

/// A name just created in a directory is found there by `lookup`, and
/// leads to the new inode.
pub proof fn lemma_create_then_lookup(ns: Seq<Option<NodeView>>, mount: u32, dir: InodeId, name: Seq<u8>,
    file_type: FileType, mode: InodeMode)
    requires
        nodes_ok(ns),
        ns.len() <= usize::MAX,
        spec_create(ns, mount, dir, name, file_type, mode).0 is Ok,
    ensures
        ({
            let (r, ns2) = spec_create(ns, mount, dir, name, file_type, mode);
            &&& lookup_in(ns2, mount, dir, name) == r
            &&& r->Ok_0.ino == ns.len()
        }),
{
    let ino = ns.len();
    let ns1 = ns.push(Some(fresh_node(ino as u64, file_type, mode)));
    let d = dir.ino as int;
    let n = ns1[d]->Some_0;
    if d < ns.len() {
        assert(ns[d] is Some);
        assert(sorted(n.children));
    }
    let cv = n.children;
    let p = choose|p: int| sorted_pos(cv, name, p);
    assert(child_index(cv, name) is None);
    assert forall|i: int| 0 <= i < cv.len() implies (#[trigger] cv[i]).0 != name by {
        if cv[i].0 == name {
            assert(exists|j: int| 0 <= j < cv.len() && cv[j].0 == name);
        }
    }
    lemma_sorted_pos_exists(cv, name);
    lemma_insert_sorted(cv, name, ino as u64, p);
    let nc = cv.insert(p, (name, ino as u64));
    lemma_child_index(nc, name, p);
}

proof fn lemma_sorted_pos_exists(children: Seq<(Seq<u8>, u64)>, name: Seq<u8>)
    ensures
        exists|p: int| sorted_pos(children, name, p),
    decreases children.len(),
{
    if exists|j: int| 0 <= j < children.len() && !lex_lt(children[j].0, name) {
        let j0 = choose|j: int| 0 <= j < children.len() && !lex_lt(children[j].0, name);
        lemma_first_not_less(children, name, j0);
    } else {
        assert(sorted_pos(children, name, children.len() as int));
    }
}

proof fn lemma_first_not_less(children: Seq<(Seq<u8>, u64)>, name: Seq<u8>, j0: int)
    requires
        0 <= j0 < children.len(),
        !lex_lt(children[j0].0, name),
    ensures
        exists|p: int| sorted_pos(children, name, p),
    decreases j0,
{
    if exists|j: int| 0 <= j < j0 && !lex_lt(children[j].0, name) {
        let j1 = choose|j: int| 0 <= j < j0 && !lex_lt(children[j].0, name);
        lemma_first_not_less(children, name, j1);
    } else {
        assert(sorted_pos(children, name, j0));
    }
}

/// Reading back a range just written gives the bytes written.
pub proof fn lemma_write_then_read(ns: Seq<Option<NodeView>>, mount: u32, inode: InodeId, offset: u64, data: Seq<u8>)
    requires
        spec_write(ns, mount, inode, offset, data).0 is Ok,
        data.len() > 0,
    ensures
        ({
            let ns2 = spec_write(ns, mount, inode, offset, data).1;
            &&& spec_read(ns2, mount, inode, offset, data.len() as int) == Ok::<int, FsError>(data.len() as int)
            &&& file_bytes(ns2[inode.ino as int]->Some_0).subrange(offset as int, offset + data.len()) == data
        }),
{
    let i = inode.ino as int;
    let n = ns[i]->Some_0;
    let w = written(n.data, offset as int, data);
    let ns2 = spec_write(ns, mount, inode, offset, data).1;
    assert(ns2[i]->Some_0.data == w);
    assert(w.subrange(offset as int, offset + data.len()) =~= data);
}

/// A name just unlinked from a directory is no longer found there.
pub proof fn lemma_unlink_then_lookup(ns: Seq<Option<NodeView>>, mount: u32, dir: InodeId, name: Seq<u8>)
    requires
        nodes_ok(ns),
        spec_unlink(ns, mount, dir, name).0 is Ok,
    ensures
        lookup_in(spec_unlink(ns, mount, dir, name).1, mount, dir, name) == Err::<InodeId, FsError>(FsError::NotFound),
{
    let d = dir.ino as int;
    let n = ns[d]->Some_0;
    let k = child_index(n.children, name)->Some_0;
    let c = n.children[k].1 as int;
    let ns2 = spec_unlink(ns, mount, dir, name).1;
    assert(sorted(n.children));
    assert(0 <= k < n.children.len() && n.children[k].0 == name);
    if c != d {
        let rest = n.children.remove(k);
        assert(ns2[d]->Some_0.children == rest);
        assert forall|i: int| 0 <= i < rest.len() implies (#[trigger] rest[i]).0 != name by {
            if i < k {
                assert(rest[i] == n.children[i]);
                assert(lex_lt(n.children[i].0, n.children[k].0));
                lemma_lex_irreflexive(name);
            } else {
                assert(rest[i] == n.children[i + 1]);
                assert(lex_lt(n.children[k].0, n.children[i + 1].0));
                lemma_lex_irreflexive(name);
            }
        }
        assert(child_index(rest, name) is None);
    }
}

} // verus!
