//! procfs: `/proc` with `self`, `cpuinfo`, `meminfo`, `fb` and a directory
//! per process, answered from a snapshot of the kernel's state.

use vstd::prelude::*;
use vstd::string::StringSliceAdditionalSpecFns;
use crate::bytes::{append_slice, copy_bytes};
use crate::fs::block::overlay;
use crate::fs::names::{is_utf8, name_eq, utf8_ok};
use crate::fs::vfs::inode::{FileType, InodeAttr, InodeId, InodeMode};
use crate::fs::vfs::superblock::{DirEntry, FileSystem, FsError};
use crate::text::{dec_u64, hex16, parse_u32, spec_dec, spec_hex, spec_parse_u32};

verus! {

pub const ROOT_INO: u64 = 1;
pub const SELF_INO: u64 = 2;
pub const CPUINFO_INO: u64 = 3;
pub const MEMINFO_INO: u64 = 4;
pub const FB_INO: u64 = 5;
pub const PID_BASE: u64 = 1000;

#[derive(Clone, Copy, Debug, PartialEq, Eq, Structural)]
pub enum VmaKind {
    Heap,
    Stack,
    Framebuffer,
    File,
    Other,
}

#[derive(Clone, Copy, Debug, PartialEq, Eq, Structural)]
pub struct VmaInfo {
    pub start: u64,
    pub end: u64,
    pub read: bool,
    pub write: bool,
    pub execute: bool,
    pub kind: VmaKind,
}

pub struct ProcessInfo {
    pub pid: u32,
    pub parent: u32,
    /// The process state as its debug name.
    pub state: Vec<u8>,
    /// The mappings, when the process has an address space.
    pub vmas: Option<Vec<VmaInfo>>,
}

/// What procfs reports, taken from the kernel: the caller's pid, frame
/// counts, the framebuffer line, and the processes in pid order.
pub struct ProcSnapshot {
    pub current_pid: u32,
    pub total_frames: u64,
    pub free_frames: u64,
    pub fb_line: Vec<u8>,
    pub processes: Vec<ProcessInfo>,
}

pub struct ProcView {
    pub pid: u32,
    pub parent: u32,
    pub state: Seq<u8>,
    pub vmas: Option<Seq<VmaInfo>>,
}

pub open spec fn process_view(p: ProcessInfo) -> ProcView {
    ProcView {
        pid: p.pid,
        parent: p.parent,
        state: p.state@,
        vmas: match p.vmas {
            Some(v) => Some(v@),
            None => None,
        },
    }
}

pub struct ProcFs {
    mount_id: u32,
    snap: ProcSnapshot,
}

pub open spec fn cpuinfo_text() -> Seq<u8> {
    "processor\t: 0\nvendor_id\t: TheoryOS\nmodel name\t: Theory CPU\n".spec_bytes()
}

/// The permission column of a mapping.
pub open spec fn spec_prot(v: VmaInfo) -> Seq<u8> {
    if v.read && v.write && v.execute { "rwxp".spec_bytes() }
    else if v.read && v.write { "rw-p".spec_bytes() }
    else if v.read && v.execute { "r-xp".spec_bytes() }
    else if v.read { "r--p".spec_bytes() }
    else if !v.write && v.execute { "--xp".spec_bytes() }
    else if v.write && v.execute { "-wxp".spec_bytes() }
    else if v.write { "-w-p".spec_bytes() }
    else { "----".spec_bytes() }
}

pub open spec fn kind_label(k: VmaKind) -> Seq<u8> {
    match k {
        VmaKind::Heap => "[heap]".spec_bytes(),
        VmaKind::Stack => "[stack]".spec_bytes(),
        VmaKind::Framebuffer => "[fb]".spec_bytes(),
        _ => Seq::empty(),
    }
}

/// One line of a maps file.
pub open spec fn maps_line(v: VmaInfo) -> Seq<u8> {
    spec_hex(v.start as nat, 16) + "-".spec_bytes() + spec_hex(v.end as nat, 16) + " ".spec_bytes() + spec_prot(v)
        + " 00000000 00:00 0 ".spec_bytes() + kind_label(v.kind) + "\n".spec_bytes()
}

pub open spec fn maps_text(vmas: Seq<VmaInfo>) -> Seq<u8>
    decreases vmas.len(),
{
    if vmas.len() == 0 { Seq::empty() } else { maps_text(vmas.drop_last()) + maps_line(vmas.last()) }
}

pub open spec fn status_text(pid: u32, p: ProcView) -> Seq<u8> {
    "Name:\tprocess-".spec_bytes() + spec_dec(pid as nat) + "\nPid:\t".spec_bytes() + spec_dec(p.pid as nat)
        + "\nPPid:\t".spec_bytes() + spec_dec(p.parent as nat) + "\nState:\t".spec_bytes() + p.state + "\n".spec_bytes()
}

pub open spec fn meminfo_text(total: u64, free: u64) -> Seq<u8> {
    "MemTotal:       ".spec_bytes() + spec_dec(total.wrapping_mul(4) as nat) + " kB\nMemFree:        ".spec_bytes()
        + spec_dec(free.wrapping_mul(4) as nat) + " kB\n".spec_bytes()
}

/// The index of the first process with `pid`.
pub open spec fn proc_index(ps: Seq<ProcView>, pid: u32, i: int) -> Option<int>
    decreases ps.len() - i,
{
    if i < 0 || i >= ps.len() { None } else if ps[i].pid == pid { Some(i) } else { proc_index(ps, pid, i + 1) }
}

/// The pid a directory inode stands for.
pub open spec fn spec_pid_of(ino: u64) -> Option<u32> {
    if ino >= PID_BASE { Some((ino - PID_BASE) as u32) } else { None }
}

pub fn pid_from_ino(ino: u64) -> (r: Option<u32>)
    ensures
        r == spec_pid_of(ino),
{
    if ino >= PID_BASE { Some((ino - PID_BASE) as u32) } else { None }
}

pub fn ino_for_pid(pid: u32) -> (r: u64)
    ensures
        r == PID_BASE + pid,
{
    PID_BASE + pid as u64
}

/// Attributes of a regular procfs file.
pub fn static_attr(ino: u64, file_type: FileType, size: u64) -> (r: InodeAttr)
    ensures
        r == (InodeAttr { ino, mode: InodeMode { bits: 0o644 }, file_type, size, nlink: 1, generation: 1, rdev: 0 }),
{
    InodeAttr { ino, mode: InodeMode::default_file(), file_type, size, nlink: 1, generation: 1, rdev: 0 }
}

/// The permission column of a mapping: read, write, execute or `-`, then `p`.
pub fn vma_prot_str(v: &VmaInfo) -> (r: &'static str)
    ensures
        r.spec_bytes() == spec_prot(*v),
{
    if v.read && v.write && v.execute { "rwxp" }
    else if v.read && v.write { "rw-p" }
    else if v.read && v.execute { "r-xp" }
    else if v.read { "r--p" }
    else if !v.write && v.execute { "--xp" }
    else if v.write && v.execute { "-wxp" }
    else if v.write { "-w-p" }
    else { "----" }
}

/// The maps file of a process: one line per mapping.
#[verifier::spinoff_prover]
#[verifier::rlimit(30)]
pub fn format_maps(vmas: &Vec<VmaInfo>) -> (r: Vec<u8>)
    ensures
        r@ == maps_text(vmas@),
{
    let mut out: Vec<u8> = Vec::new();
    let mut i: usize = 0;
    while i < vmas.len()
        invariant
            0 <= i <= vmas@.len(),
            out@ == maps_text(vmas@.subrange(0, i as int)),
        decreases vmas@.len() - i,
    {
        let v = vmas[i];
        let ghost before = out@;
        append_slice(&mut out, hex16(v.start).as_slice());
        append_slice(&mut out, "-".as_bytes());
        append_slice(&mut out, hex16(v.end).as_slice());
        append_slice(&mut out, " ".as_bytes());
        append_slice(&mut out, vma_prot_str(&v).as_bytes());
        append_slice(&mut out, " 00000000 00:00 0 ".as_bytes());
        let label: &str = match v.kind {
            VmaKind::Heap => "[heap]",
            VmaKind::Stack => "[stack]",
            VmaKind::Framebuffer => "[fb]",
            _ => "",
        };
        proof {
            if v.kind != VmaKind::Heap && v.kind != VmaKind::Stack && v.kind != VmaKind::Framebuffer {
                reveal_strlit("");
                assert(label.spec_bytes() =~= Seq::<u8>::empty()) by {
                    vstd::string::is_ascii_spec_bytes(label);
                }
            }
        }
        append_slice(&mut out, label.as_bytes());
        append_slice(&mut out, "\n".as_bytes());
        proof {
            assert(vmas@.subrange(0, i + 1).drop_last() =~= vmas@.subrange(0, i as int));
            assert(out@ =~= before + maps_line(v));
        }
        i = i + 1;
    }
    assert(vmas@.subrange(0, vmas@.len() as int) =~= vmas@);
    out
}

impl ProcFs {
    pub closed spec fn mount(&self) -> u32 {
        self.mount_id
    }

    pub closed spec fn current_pid(&self) -> u32 {
        self.snap.current_pid
    }

    pub closed spec fn frames(&self) -> (u64, u64) {
        (self.snap.total_frames, self.snap.free_frames)
    }

    pub closed spec fn fb_line(&self) -> Seq<u8> {
        self.snap.fb_line@
    }

    pub closed spec fn processes(&self) -> Seq<ProcView> {
        self.snap.processes@.map_values(|p: ProcessInfo| process_view(p))
    }

    /// A procfs with an empty snapshot: pid 0, no frames, no processes.
    pub fn new(mount_id: u32) -> (r: Self)
        ensures
            r.mount() == mount_id,
            r.current_pid() == 0,
            r.frames() == (0u64, 0u64),
            r.fb_line().len() == 0,
            r.processes().len() == 0,
    {
        let r = ProcFs {
            mount_id,
            snap: ProcSnapshot { current_pid: 0, total_frames: 0, free_frames: 0, fb_line: Vec::new(), processes: Vec::new() },
        };
        assert(r.processes() =~= Seq::<ProcView>::empty());
        r
    }

    /// Replaces the snapshot the files are made from.
    pub fn set_snapshot(&mut self, snap: ProcSnapshot)
        ensures
            final(self).mount() == old(self).mount(),
            final(self).current_pid() == snap.current_pid,
            final(self).frames() == (snap.total_frames, snap.free_frames),
            final(self).fb_line() == snap.fb_line@,
            final(self).processes() == snap.processes@.map_values(|p: ProcessInfo| process_view(p)),
    {
        self.snap = snap;
    }

    fn find_process(&self, pid: u32) -> (r: Option<usize>)
        ensures
            r matches Some(i) ==> proc_index(self.processes(), pid, 0) == Some(i as int) && i < self.snap.processes@.len(),
            r is None ==> proc_index(self.processes(), pid, 0) is None,
    {
        let mut i: usize = 0;
        while i < self.snap.processes.len()
            invariant
                0 <= i <= self.snap.processes@.len(),
                self.processes().len() == self.snap.processes@.len(),
                proc_index(self.processes(), pid, i as int) == proc_index(self.processes(), pid, 0),
            decreases self.snap.processes@.len() - i,
        {
            assert(self.processes()[i as int].pid == self.snap.processes@[i as int].pid);
            if self.snap.processes[i].pid == pid {
                return Some(i);
            }
            i = i + 1;
        }
        None
    }

    /// The content of file `ino`, made afresh from the snapshot.
    pub open spec fn spec_file(&self, ino: u64) -> Seq<u8> {
        if ino == SELF_INO {
            spec_dec(self.current_pid() as nat) + "\n".spec_bytes()
        } else if ino == CPUINFO_INO {
            cpuinfo_text()
        } else if ino == MEMINFO_INO {
            meminfo_text(self.frames().0, self.frames().1)
        } else if ino == FB_INO {
            self.fb_line()
        } else {
            match spec_pid_of(ino) {
                None => Seq::empty(),
                Some(pid) => {
                    let base = PID_BASE + pid;
                    if ino == base + 1 {
                        match proc_index(self.processes(), pid, 0) {
                            Some(i) => status_text(pid, self.processes()[i]),
                            None => "Name:\t<unknown>\n".spec_bytes(),
                        }
                    } else if ino == base + 2 {
                        match proc_index(self.processes(), pid, 0) {
                            Some(i) => match self.processes()[i].vmas {
                                Some(v) => maps_text(v),
                                None => Seq::empty(),
                            },
                            None => Seq::empty(),
                        }
                    } else {
                        Seq::empty()
                    }
                },
            }
        }
    }

    pub fn generate_file(&self, ino: u64) -> (r: Vec<u8>)
        ensures
            r@ == self.spec_file(ino),
    {
        if ino == SELF_INO {
            let mut out = dec_u64(self.snap.current_pid as u64);
            append_slice(&mut out, "\n".as_bytes());
            return out;
        }
        if ino == CPUINFO_INO {
            return copy_bytes("processor\t: 0\nvendor_id\t: TheoryOS\nmodel name\t: Theory CPU\n".as_bytes());
        }
        if ino == MEMINFO_INO {
            let mut out = copy_bytes("MemTotal:       ".as_bytes());
            append_slice(&mut out, dec_u64(self.snap.total_frames.wrapping_mul(4)).as_slice());
            append_slice(&mut out, " kB\nMemFree:        ".as_bytes());
            append_slice(&mut out, dec_u64(self.snap.free_frames.wrapping_mul(4)).as_slice());
            append_slice(&mut out, " kB\n".as_bytes());
            return out;
        }
        if ino == FB_INO {
            return copy_bytes(self.snap.fb_line.as_slice());
        }
        let pid = match pid_from_ino(ino) {
            Some(p) => p,
            None => return Vec::new(),
        };
        let base = ino_for_pid(pid);
        if base < u64::MAX && ino == base + 1 {
            match self.find_process(pid) {
                Some(i) => {
                    let p = &self.snap.processes[i];
                    assert(self.processes()[i as int] == process_view(*p));
                    let mut out = copy_bytes("Name:\tprocess-".as_bytes());
                    append_slice(&mut out, dec_u64(pid as u64).as_slice());
                    append_slice(&mut out, "\nPid:\t".as_bytes());
                    append_slice(&mut out, dec_u64(p.pid as u64).as_slice());
                    append_slice(&mut out, "\nPPid:\t".as_bytes());
                    append_slice(&mut out, dec_u64(p.parent as u64).as_slice());
                    append_slice(&mut out, "\nState:\t".as_bytes());
                    append_slice(&mut out, p.state.as_slice());
                    append_slice(&mut out, "\n".as_bytes());
                    out
                },
                None => copy_bytes("Name:\t<unknown>\n".as_bytes()),
            }
        } else if base < u64::MAX - 1 && ino == base + 2 {
            match self.find_process(pid) {
                Some(i) => {
                    let p = &self.snap.processes[i];
                    assert(self.processes()[i as int] == process_view(*p));
                    match &p.vmas {
                        Some(v) => format_maps(v),
                        None => Vec::new(),
                    }
                },
                None => Vec::new(),
            }
        } else {
            Vec::new()
        }
    }
}

/// The names in `/proc` besides the process directories, with their inodes.
pub open spec fn root_entry(index: int) -> (Seq<u8>, u64) {
    if index == 0 { ("self".spec_bytes(), SELF_INO) }
    else if index == 1 { ("cpuinfo".spec_bytes(), CPUINFO_INO) }
    else if index == 2 { ("meminfo".spec_bytes(), MEMINFO_INO) }
    else { ("fb".spec_bytes(), FB_INO) }
}

impl FileSystem for ProcFs {
    open spec fn root_spec(&self) -> InodeId {
        InodeId { mount: self.mount(), ino: ROOT_INO }
    }

    open spec fn attr_of(&self, inode: InodeId) -> Result<InodeAttr, FsError> {
        let ino = inode.ino;
        let file = |size: u64| InodeAttr { ino, mode: InodeMode { bits: 0o644 }, file_type: FileType::Regular, size, nlink: 1, generation: 1, rdev: 0 };
        if inode.mount != self.mount() {
            Err(FsError::NotFound)
        } else if ino == ROOT_INO {
            Ok(InodeAttr { ino: ROOT_INO, mode: InodeMode { bits: 0o755 }, file_type: FileType::Directory, size: 0, nlink: 2, generation: 1, rdev: 0 })
        } else if ino == SELF_INO {
            Ok(file(8))
        } else if ino == CPUINFO_INO || ino == MEMINFO_INO {
            Ok(file(64))
        } else if ino == FB_INO {
            Ok(file(32))
        } else if ino >= PID_BASE {
            if ino == PID_BASE + ((ino - PID_BASE) as u32) {
                Ok(InodeAttr { ino, mode: InodeMode { bits: 0o755 }, file_type: FileType::Directory, size: 0, nlink: 2, generation: 1, rdev: 0 })
            } else {
                Ok(file(256))
            }
        } else {
            Err(FsError::NotFound)
        }
    }

    open spec fn child_of(&self, dir: InodeId, name: Seq<u8>) -> Result<InodeId, FsError> {
        let mid = self.mount();
        if !is_utf8(name) {
            Err(FsError::Invalid)
        } else if dir.ino == ROOT_INO {
            if name == "self".spec_bytes() { Ok(InodeId { mount: mid, ino: SELF_INO }) }
            else if name == "cpuinfo".spec_bytes() { Ok(InodeId { mount: mid, ino: CPUINFO_INO }) }
            else if name == "meminfo".spec_bytes() { Ok(InodeId { mount: mid, ino: MEMINFO_INO }) }
            else if name == "fb".spec_bytes() { Ok(InodeId { mount: mid, ino: FB_INO }) }
            else {
                match spec_parse_u32(name) {
                    Some(pid) => if proc_index(self.processes(), pid, 0) is Some {
                        Ok(InodeId { mount: mid, ino: (PID_BASE + pid) as u64 })
                    } else {
                        Err(FsError::NotFound)
                    },
                    None => Err(FsError::NotFound),
                }
            }
        } else {
            match spec_pid_of(dir.ino) {
                Some(pid) => if proc_index(self.processes(), pid, 0) is None {
                    Err(FsError::NotFound)
                } else if name == "status".spec_bytes() {
                    Ok(InodeId { mount: mid, ino: dir.ino.wrapping_add(1) })
                } else if name == "maps".spec_bytes() {
                    Ok(InodeId { mount: mid, ino: dir.ino.wrapping_add(2) })
                } else {
                    Err(FsError::NotFound)
                },
                None => Err(FsError::NotDir),
            }
        }
    }

    open spec fn link_of(&self, inode: InodeId) -> Result<Seq<u8>, FsError> {
        Err(FsError::NotSymlink)
    }

    fn fs_type(&self) -> (r: &'static str)
        ensures
            r@ == "procfs"@,
    {
        "procfs"
    }

    fn root(&self) -> (r: InodeId) {
        InodeId::new(self.mount_id, ROOT_INO)
    }

    fn getattr(&self, inode: InodeId) -> (r: Result<InodeAttr, FsError>) {
        if inode.mount != self.mount_id {
            return Err(FsError::NotFound);
        }
        let ino = inode.ino;
        if ino == ROOT_INO {
            return Ok(InodeAttr { ino: ROOT_INO, mode: InodeMode::default_dir(), file_type: FileType::Directory,
                size: 0, nlink: 2, generation: 1, rdev: 0 });
        }
        if ino == SELF_INO {
            return Ok(static_attr(SELF_INO, FileType::Regular, 8));
        }
        if ino == CPUINFO_INO || ino == MEMINFO_INO {
            return Ok(static_attr(ino, FileType::Regular, 64));
        }
        if ino == FB_INO {
            return Ok(static_attr(FB_INO, FileType::Regular, 32));
        }
        match pid_from_ino(ino) {
            Some(pid) => {
                let base = ino_for_pid(pid);
                if ino == base {
                    Ok(InodeAttr { ino: base, mode: InodeMode::default_dir(), file_type: FileType::Directory,
                        size: 0, nlink: 2, generation: 1, rdev: 0 })
                } else {
                    Ok(static_attr(ino, FileType::Regular, 256))
                }
            },
            None => Err(FsError::NotFound),
        }
    }

    fn lookup(&self, dir: InodeId, name: &[u8]) -> (r: Result<InodeId, FsError>) {
        if !utf8_ok(name) {
            return Err(FsError::Invalid);
        }
        let mid = self.mount_id;
        if dir.ino == ROOT_INO {
            if name_eq(name, "self".as_bytes()) {
                return Ok(InodeId::new(mid, SELF_INO));
            }
            if name_eq(name, "cpuinfo".as_bytes()) {
                return Ok(InodeId::new(mid, CPUINFO_INO));
            }
            if name_eq(name, "meminfo".as_bytes()) {
                return Ok(InodeId::new(mid, MEMINFO_INO));
            }
            if name_eq(name, "fb".as_bytes()) {
                return Ok(InodeId::new(mid, FB_INO));
            }
            if let Some(pid) = parse_u32(name) {
                if self.find_process(pid).is_some() {
                    return Ok(InodeId::new(mid, ino_for_pid(pid)));
                }
            }
            return Err(FsError::NotFound);
        }
        match pid_from_ino(dir.ino) {
            Some(pid) => {
                if self.find_process(pid).is_none() {
                    return Err(FsError::NotFound);
                }
                if name_eq(name, "status".as_bytes()) {
                    return Ok(InodeId::new(mid, dir.ino.wrapping_add(1)));
                }
                if name_eq(name, "maps".as_bytes()) {
                    return Ok(InodeId::new(mid, dir.ino.wrapping_add(2)));
                }
                Err(FsError::NotFound)
            },
            None => Err(FsError::NotDir),
        }
    }

    open spec fn create_done(&self, after: Self, dir: InodeId, name: Seq<u8>, file_type: FileType, mode: InodeMode, r: Result<InodeId, FsError>) -> bool {
        r == Err::<InodeId, FsError>(FsError::AccessDenied) && after == *self
    }

    fn create(&mut self, dir: InodeId, name: &[u8], file_type: FileType, mode: InodeMode) -> (r: Result<InodeId, FsError>)
    {
        Err(FsError::AccessDenied)
    }

    open spec fn mkdir_done(&self, after: Self, dir: InodeId, name: Seq<u8>, mode: InodeMode, r: Result<InodeId, FsError>) -> bool {
        r == Err::<InodeId, FsError>(FsError::AccessDenied) && after == *self
    }

    fn mkdir(&mut self, dir: InodeId, name: &[u8], mode: InodeMode) -> (r: Result<InodeId, FsError>)
    {
        Err(FsError::AccessDenied)
    }

    open spec fn unlink_done(&self, after: Self, dir: InodeId, name: Seq<u8>, r: Result<(), FsError>) -> bool {
        r == Err::<(), FsError>(FsError::AccessDenied) && after == *self
    }

    fn unlink(&mut self, dir: InodeId, name: &[u8]) -> (r: Result<(), FsError>)
    {
        Err(FsError::AccessDenied)
    }

    open spec fn read_result(&self, inode: InodeId, offset: u64, buf: Seq<u8>) -> (Result<usize, FsError>, Seq<u8>) {
        let data = self.spec_file(inode.ino);
        if offset >= data.len() {
            (Ok(0), buf)
        } else {
            let n = if buf.len() < data.len() - offset { buf.len() as int } else { data.len() - offset };
            (Ok(n as usize), overlay(buf, data.subrange(offset as int, offset + n)))
        }
    }

    fn read(&self, inode: InodeId, offset: u64, buf: &mut Vec<u8>) -> (r: Result<usize, FsError>)
    {
        let data = self.generate_file(inode.ino);
        if offset >= data.len() as u64 {
            return Ok(0);
        }
        let dlen = data.len();
        let start = offset as usize;
        let avail = dlen - start;
        let cnt = if buf.len() < avail { buf.len() } else { avail };
        let mut k: usize = 0;
        while k < cnt
            invariant
                0 <= k <= cnt,
                cnt <= buf@.len(),
                dlen == data@.len(),
                start + cnt <= dlen,
                buf@.len() == old(buf)@.len(),
                forall|j: int| 0 <= j < k ==> #[trigger] buf@[j] == data@[start + j],
                forall|j: int| k <= j < buf@.len() ==> #[trigger] buf@[j] == old(buf)@[j],
            decreases cnt - k,
        {
            buf.set(k, data[start + k]);
            k = k + 1;
        }
        assert(buf@ =~= overlay(old(buf)@, data@.subrange(start as int, start + cnt)));
        Ok(cnt)
    }

    open spec fn write_done(&self, after: Self, inode: InodeId, offset: u64, buf: Seq<u8>, r: Result<usize, FsError>) -> bool {
        r == Err::<usize, FsError>(FsError::AccessDenied) && after == *self
    }

    fn write(&mut self, inode: InodeId, offset: u64, buf: &[u8]) -> (r: Result<usize, FsError>)
    {
        Err(FsError::AccessDenied)
    }

    open spec fn readdir_result(&self, dir: InodeId, index: u64) -> Result<Option<(Seq<u8>, InodeId, FileType)>, FsError> {
        if dir.ino == ROOT_INO {
            if index < 4 {
                Ok(Some((root_entry(index as int).0, InodeId { mount: self.mount(), ino: root_entry(index as int).1 }, FileType::Regular)))
            } else if index - 4 < self.processes().len() {
                let pid = self.processes()[index - 4].pid;
                Ok(Some((spec_dec(pid as nat), InodeId { mount: self.mount(), ino: (PID_BASE + pid) as u64 }, FileType::Directory)))
            } else {
                Ok(None)
            }
        } else if dir.ino >= PID_BASE {
            if index < 2 {
                Ok(Some((if index == 0 { "status".spec_bytes() } else { "maps".spec_bytes() },
                    InodeId { mount: self.mount(), ino: dir.ino.wrapping_add(index).wrapping_add(1) }, FileType::Regular)))
            } else {
                Ok(None)
            }
        } else {
            Err(FsError::NotDir)
        }
    }

    fn readdir(&self, dir: InodeId, index: u64, entry: &mut DirEntry) -> (r: Result<bool, FsError>)
    {
        let mid = self.mount_id;
        if dir.ino == ROOT_INO {
            if index < 4 {
                let (name, ino): (&str, u64) = if index == 0 {
                    ("self", SELF_INO)
                } else if index == 1 {
                    ("cpuinfo", CPUINFO_INO)
                } else if index == 2 {
                    ("meminfo", MEMINFO_INO)
                } else {
                    ("fb", FB_INO)
                };
                entry.name = copy_bytes(name.as_bytes());
                entry.inode = InodeId::new(mid, ino);
                entry.file_type = FileType::Regular;
                return Ok(true);
            }
            let idx = index - 4;
            if idx < self.snap.processes.len() as u64 {
                let p = &self.snap.processes[idx as usize];
                assert(self.processes()[idx as int].pid == p.pid);
                entry.name = dec_u64(p.pid as u64);
                entry.inode = InodeId::new(mid, ino_for_pid(p.pid));
                entry.file_type = FileType::Directory;
                return Ok(true);
            }
            return Ok(false);
        }
        if pid_from_ino(dir.ino).is_some() {
            if index >= 2 {
                return Ok(false);
            }
            let name: &str = if index == 0 { "status" } else { "maps" };
            entry.name = copy_bytes(name.as_bytes());
            entry.inode = InodeId::new(mid, dir.ino.wrapping_add(index).wrapping_add(1));
            entry.file_type = FileType::Regular;
            return Ok(true);
        }
        Err(FsError::NotDir)
    }

    fn readlink(&self, inode: InodeId, buf: &mut Vec<u8>) -> (r: Result<usize, FsError>) {
        Err(FsError::NotSymlink)
    }

    open spec fn symlink_done(&self, after: Self, dir: InodeId, name: Seq<u8>, target: Seq<u8>, mode: InodeMode, r: Result<InodeId, FsError>) -> bool {
        r == Err::<InodeId, FsError>(FsError::AccessDenied) && after == *self
    }

    fn symlink(&mut self, dir: InodeId, name: &[u8], target: &[u8], mode: InodeMode) -> (r: Result<InodeId, FsError>)
    {
        Err(FsError::AccessDenied)
    }

    open spec fn truncate_done(&self, after: Self, inode: InodeId, size: u64, r: Result<(), FsError>) -> bool {
        r == Err::<(), FsError>(FsError::AccessDenied) && after == *self
    }

    fn truncate(&mut self, inode: InodeId, size: u64) -> (r: Result<(), FsError>)
    {
        Err(FsError::AccessDenied)
    }
}

/// `/proc/meminfo` is two lines, each value in kB of 4 KiB frames: the
/// snapshot's total frames after "MemTotal:", its free frames after
/// "MemFree:" (each label padded to 16 columns).
pub proof fn lemma_meminfo_lines(p: ProcFs)
    ensures
        p.spec_file(MEMINFO_INO) == "MemTotal:       ".spec_bytes() + spec_dec(p.frames().0.wrapping_mul(4) as nat)
            + " kB\n".spec_bytes() + "MemFree:        ".spec_bytes() + spec_dec(p.frames().1.wrapping_mul(4) as nat)
            + " kB\n".spec_bytes(),
{
    reveal_strlit(" kB\nMemFree:        ");
    reveal_strlit(" kB\n");
    reveal_strlit("MemFree:        ");
    vstd::string::is_ascii_spec_bytes(" kB\nMemFree:        ");
    vstd::string::is_ascii_spec_bytes(" kB\n");
    vstd::string::is_ascii_spec_bytes("MemFree:        ");
    assert(vstd::string::is_ascii(" kB\nMemFree:        "));
    assert(vstd::string::is_ascii(" kB\n"));
    assert(vstd::string::is_ascii("MemFree:        "));
    assert(" kB\nMemFree:        ".spec_bytes() =~= " kB\n".spec_bytes() + "MemFree:        ".spec_bytes());
    let a = "MemTotal:       ".spec_bytes() + spec_dec(p.frames().0.wrapping_mul(4) as nat);
    let d = spec_dec(p.frames().1.wrapping_mul(4) as nat);
    assert(a + " kB\nMemFree:        ".spec_bytes() + d + " kB\n".spec_bytes()
        =~= a + " kB\n".spec_bytes() + "MemFree:        ".spec_bytes() + d + " kB\n".spec_bytes());
}

/// `/proc/self` holds the current process id in decimal and a newline.
pub proof fn lemma_self_line(p: ProcFs)
    ensures
        p.spec_file(SELF_INO) == spec_dec(p.current_pid() as nat).push(0x0Au8),
{
    reveal_strlit("\n");
    vstd::string::is_ascii_spec_bytes("\n");
    assert(vstd::string::is_ascii("\n"));
    assert(spec_dec(p.current_pid() as nat) + "\n".spec_bytes() =~= spec_dec(p.current_pid() as nat).push(0x0Au8));
}

} // verus!
