//! Per-process file descriptor tables.

use vstd::prelude::*;
use crate::fs::vfs::file::OpenFile;

verus! {

pub const MAX_FDS: usize = 256;
pub const FD_CLOEXEC: u8 = 1;

pub const O_RDONLY: u32 = 0;
pub const O_WRONLY: u32 = 1;
pub const O_RDWR: u32 = 2;
pub const O_CREAT: u32 = 0x40;
pub const O_NOFOLLOW: u32 = 0x100;
pub const O_TRUNC: u32 = 0x200;
pub const O_APPEND: u32 = 0x400;

/// `open` flags as their bit pattern.
#[derive(Clone, Copy, Debug, PartialEq, Eq, Structural)]
pub struct OpenFlags {
    pub bits: u32,
}

impl OpenFlags {
    pub fn from_bits(bits: u32) -> (r: Self)
        ensures
            r.bits == bits,
    {
        OpenFlags { bits }
    }

    pub fn bits(&self) -> (r: u32)
        ensures
            r == self.bits,
    {
        self.bits
    }

    /// Whether every bit of `other` is set (so everything contains `O_RDONLY`).
    pub fn contains(&self, other: OpenFlags) -> (r: bool)
        ensures
            r == (self.bits & other.bits == other.bits),
    {
        self.bits & other.bits == other.bits
    }

    pub fn union(&self, other: OpenFlags) -> (r: OpenFlags)
        ensures
            r.bits == self.bits | other.bits,
    {
        OpenFlags { bits: self.bits | other.bits }
    }
}

/// Identifiers of the other kinds of open object.
#[derive(Clone, Copy, Debug, PartialEq, Eq, Structural)]
pub struct PipeId(pub u32);

#[derive(Clone, Copy, Debug, PartialEq, Eq, Structural)]
pub struct SocketId(pub u32);

#[derive(Clone, Copy, Debug, PartialEq, Eq, Structural)]
pub struct UnixSocketId(pub u32);

#[derive(Clone, Copy, Debug, PartialEq, Eq, Structural)]
pub enum FdEntry {
    ConsoleIn,
    ConsoleOut,
    ConsoleErr,
    PipeRead(PipeId),
    PipeWrite(PipeId),
    Vfs(OpenFile),
    Socket(SocketId),
    UnixSocket(UnixSocketId),
    Anon,
}

/// Whether descriptor `i` is closed by `exec`: from 3 on, marked close-on-exec.
pub open spec fn closes_on_exec(flags: Seq<u8>, i: int) -> bool {
    3 <= i && flags[i] & FD_CLOEXEC != 0
}

pub struct FdTable {
    entries: Vec<Option<FdEntry>>,
    fd_flags: Vec<u8>,
    next_fd: u32,
}

impl FdTable {
    /// The open entry of each descriptor.
    pub closed spec fn entries(&self) -> Seq<Option<FdEntry>> {
        self.entries@
    }

    /// The descriptor flags of each descriptor.
    pub closed spec fn flags(&self) -> Seq<u8> {
        self.fd_flags@
    }

    pub open spec fn wf(&self) -> bool {
        self.entries().len() == MAX_FDS && self.flags().len() == MAX_FDS
    }

    /// The entry of `fd`, none past the table.
    pub open spec fn spec_get(&self, fd: u32) -> Option<FdEntry> {
        if (fd as int) < MAX_FDS { self.entries()[fd as int] } else { None }
    }

    /// An empty table.
    pub fn new() -> (r: Self)
        ensures
            r.wf(),
            forall|i: int| 0 <= i < MAX_FDS ==> #[trigger] r.entries()[i].is_none() && r.flags()[i] == 0,
    {
        let mut entries: Vec<Option<FdEntry>> = Vec::new();
        let mut fd_flags: Vec<u8> = Vec::new();
        let mut i: usize = 0;
        while i < MAX_FDS
            invariant
                0 <= i <= MAX_FDS,
                entries@.len() == i,
                fd_flags@.len() == i,
                forall|j: int| 0 <= j < i ==> #[trigger] entries@[j].is_none() && fd_flags@[j] == 0,
            decreases MAX_FDS - i,
        {
            entries.push(None);
            fd_flags.push(0);
            i = i + 1;
        }
        FdTable { entries, fd_flags, next_fd: 3 }
    }

    /// Descriptors 0, 1 and 2 become the console's input, output and error.
    pub fn init_stdio(&mut self)
        requires
            old(self).wf(),
        ensures
            final(self).wf(),
            final(self).entries() == old(self).entries().update(0, Some(FdEntry::ConsoleIn)).update(1, Some(FdEntry::ConsoleOut)).update(2, Some(FdEntry::ConsoleErr)),
            final(self).flags() == old(self).flags(),
    {
        self.entries.set(0, Some(FdEntry::ConsoleIn));
        self.entries.set(1, Some(FdEntry::ConsoleOut));
        self.entries.set(2, Some(FdEntry::ConsoleErr));
    }

    /// Opens `entry` on the lowest free descriptor; fails when none is free.
    pub fn alloc_fd(&mut self, entry: FdEntry) -> (r: Result<u32, ()>)
        requires
            old(self).wf(),
        ensures
            final(self).wf(),
            final(self).flags() == old(self).flags(),
            match r {
                Ok(fd) => fd < MAX_FDS
                    && old(self).entries()[fd as int].is_none()
                    && (forall|j: int| 0 <= j < fd ==> (#[trigger] old(self).entries()[j]).is_some())
                    && final(self).entries() == old(self).entries().update(fd as int, Some(entry)),
                Err(()) => (forall|j: int| 0 <= j < MAX_FDS ==> (#[trigger] old(self).entries()[j]).is_some())
                    && final(self).entries() == old(self).entries(),
            },
    {
        let mut fd: usize = 0;
        while fd < MAX_FDS
            invariant
                0 <= fd <= MAX_FDS,
                self.wf(),
                self.entries() == old(self).entries(),
                self.flags() == old(self).flags(),
                forall|j: int| 0 <= j < fd ==> (#[trigger] old(self).entries()[j]).is_some(),
            decreases MAX_FDS - fd,
        {
            if self.entries[fd].is_none() {
                self.entries.set(fd, Some(entry));
                return Ok(fd as u32);
            }
            fd = fd + 1;
        }
        Err(())
    }

    pub fn get(&self, fd: u32) -> (r: Option<FdEntry>)
        requires
            self.wf(),
        ensures
            r == self.spec_get(fd),
    {
        if (fd as usize) < MAX_FDS {
            self.entries[fd as usize]
        } else {
            None
        }
    }

    /// The open file behind `fd`, to be changed in place, when it is a
    /// filesystem file.
    pub fn get_vfs_mut(&mut self, fd: u32) -> (r: Option<&mut OpenFile>)
        requires
            old(self).wf(),
        ensures
            final(self).wf(),
            final(self).flags() == old(self).flags(),
            match old(self).spec_get(fd) {
                Some(FdEntry::Vfs(f)) => r matches Some(fr) && *fr == f
                    && final(self).entries() == old(self).entries().update(fd as int, Some(FdEntry::Vfs(*final(fr)))),
                _ => r is None && final(self).entries() == old(self).entries(),
            },
    {
        if (fd as usize) >= MAX_FDS {
            return None;
        }
        match &mut self.entries[fd as usize] {
            Some(FdEntry::Vfs(f)) => Some(f),
            _ => None,
        }
    }

    pub fn dup(&self, fd: u32) -> (r: Result<FdEntry, ()>)
        requires
            self.wf(),
        ensures
            r == (match self.spec_get(fd) { Some(e) => Ok(e), None => Err::<FdEntry, ()>(()) }),
    {
        match self.get(fd) {
            Some(e) => Ok(e),
            None => Err(()),
        }
    }

    /// Closes `fd`; the standard descriptors 0-2 and closed ones fail.
    pub fn close(&mut self, fd: u32) -> (r: Result<(), ()>)
        requires
            old(self).wf(),
        ensures
            final(self).wf(),
            final(self).flags() == old(self).flags(),
            r is Ok <==> (fd >= 3 && old(self).spec_get(fd).is_some()),
            r is Ok ==> final(self).entries() == old(self).entries().update(fd as int, None),
            r is Err ==> final(self).entries() == old(self).entries(),
    {
        if fd < 3 {
            return Err(());
        }
        if (fd as usize) < MAX_FDS && self.entries[fd as usize].is_some() {
            self.entries.set(fd as usize, None);
            Ok(())
        } else {
            Err(())
        }
    }

    /// Makes `newfd` refer to what `oldfd` refers to, with its flags.
    pub fn dup2(&mut self, oldfd: u32, newfd: u32) -> (r: Result<u32, ()>)
        requires
            old(self).wf(),
        ensures
            final(self).wf(),
            r is Ok <==> (old(self).spec_get(oldfd).is_some() && (newfd as int) < MAX_FDS),
            r is Ok ==> r == Ok::<u32, ()>(newfd)
                && final(self).entries() == old(self).entries().update(newfd as int, old(self).spec_get(oldfd))
                && final(self).flags() == old(self).flags().update(newfd as int, old(self).flags()[oldfd as int]),
            r is Err ==> final(self).entries() == old(self).entries() && final(self).flags() == old(self).flags(),
    {
        let entry = match self.dup(oldfd) {
            Ok(e) => e,
            Err(()) => return Err(()),
        };
        if newfd as usize >= MAX_FDS {
            return Err(());
        }
        self.entries.set(newfd as usize, Some(entry));
        let f = self.fd_flags[oldfd as usize];
        self.fd_flags.set(newfd as usize, f);
        Ok(newfd)
    }

    /// Closes every descriptor from 3 on marked close-on-exec.
    pub fn close_on_exec(&mut self)
        requires
            old(self).wf(),
        ensures
            final(self).wf(),
            forall|i: int| 0 <= i < MAX_FDS && closes_on_exec(old(self).flags(), i)
                ==> #[trigger] final(self).entries()[i] == None::<FdEntry> && final(self).flags()[i] == 0,
            forall|i: int| 0 <= i < MAX_FDS && !closes_on_exec(old(self).flags(), i)
                ==> #[trigger] final(self).entries()[i] == old(self).entries()[i] && final(self).flags()[i] == old(self).flags()[i],
    {
        let mut fd: usize = 3;
        while fd < MAX_FDS
            invariant
                3 <= fd <= MAX_FDS,
                self.wf(),
                old(self).wf(),
                forall|i: int| 0 <= i < fd && closes_on_exec(old(self).flags(), i)
                    ==> #[trigger] self.entries()[i] == None::<FdEntry> && self.flags()[i] == 0,
                forall|i: int| 0 <= i < MAX_FDS && !(i < fd && closes_on_exec(old(self).flags(), i))
                    ==> #[trigger] self.entries()[i] == old(self).entries()[i] && self.flags()[i] == old(self).flags()[i],
            decreases MAX_FDS - fd,
        {
            assert(self.entries()[fd as int] == old(self).entries()[fd as int]);
            assert(self.flags()[fd as int] == old(self).flags()[fd as int]);
            let ghost before_entries = self.entries();
            let ghost before_flags = self.flags();
            if self.fd_flags[fd] & FD_CLOEXEC != 0 {
                self.entries.set(fd, None);
                self.fd_flags.set(fd, 0);
                assert(closes_on_exec(old(self).flags(), fd as int));
            } else {
                assert(!closes_on_exec(old(self).flags(), fd as int));
            }
            assert forall|i: int| 0 <= i < MAX_FDS && i != fd implies
                #[trigger] self.entries()[i] == before_entries[i] && self.flags()[i] == before_flags[i] by {}
            fd = fd + 1;
        }
    }

    pub fn get_fd_flags(&self, fd: u32) -> (r: u8)
        requires
            self.wf(),
        ensures
            r == (if (fd as int) < MAX_FDS { self.flags()[fd as int] } else { 0 }),
    {
        if (fd as usize) < MAX_FDS {
            self.fd_flags[fd as usize]
        } else {
            0
        }
    }

    /// Sets the flags of an open descriptor.
    pub fn set_fd_flags(&mut self, fd: u32, flags: u8) -> (r: Result<(), ()>)
        requires
            old(self).wf(),
        ensures
            final(self).wf(),
            final(self).entries() == old(self).entries(),
            r is Ok <==> old(self).spec_get(fd).is_some(),
            r is Ok ==> final(self).flags() == old(self).flags().update(fd as int, flags),
            r is Err ==> final(self).flags() == old(self).flags(),
    {
        if fd as usize >= MAX_FDS || self.entries[fd as usize].is_none() {
            return Err(());
        }
        self.fd_flags.set(fd as usize, flags);
        Ok(())
    }

    /// The access the descriptor grants: read for console input, write for
    /// console output and error, read-write otherwise.
    pub fn open_flags(&self, fd: u32) -> (r: OpenFlags)
        requires
            self.wf(),
        ensures
            r.bits == (match self.spec_get(fd) {
                Some(FdEntry::ConsoleIn) => O_RDONLY,
                Some(FdEntry::ConsoleOut) => O_WRONLY,
                Some(FdEntry::ConsoleErr) => O_WRONLY,
                _ => O_RDWR,
            }),
    {
        match self.get(fd) {
            Some(FdEntry::ConsoleIn) => OpenFlags { bits: O_RDONLY },
            Some(FdEntry::ConsoleOut) | Some(FdEntry::ConsoleErr) => OpenFlags { bits: O_WRONLY },
            _ => OpenFlags { bits: O_RDWR },
        }
    }
}

} // verus!
