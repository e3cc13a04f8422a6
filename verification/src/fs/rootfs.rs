//! What the root filesystem holds after boot: the standard directories, the
//! programs built into the kernel image, and the files of `/etc`.

use vstd::prelude::*;
use vstd::string::StringSliceAdditionalSpecFns;
use crate::fs::vfs::dentry::Dentry;
use crate::fs::vfs::mount::MountTable;
use crate::fs::vfs::ops::{
    mkdir_path, mkdir_path_effect, read_path, read_path_result, symlink_path, symlink_path_effect, write_path,
    write_path_effect, Vfs,
};
use crate::fs::vfs::path::path_lookup;
use crate::fs::vfs::superblock::FsError;
use crate::fs::vfs::superblock::FileSystem;

verus! {

/// The program images built into the kernel; an empty image is not installed.
pub struct EmbeddedImages {
    pub init: Vec<u8>,
    pub sh: Vec<u8>,
    pub ui: Vec<u8>,
    pub busybox: Vec<u8>,
    pub ld_musl: Vec<u8>,
}

/// A setup step that makes the directory at its path.
pub const STEP_MKDIR: u8 = 0;
/// A setup step that writes its data to its path, making the file.
pub const STEP_WRITE: u8 = 1;
/// A setup step that makes a symlink at its path to its data.
pub const STEP_LINK: u8 = 2;

/// How one setup step `(kind, path, data)` leaves the mounts and the cache
/// slots; what the operation answers is dropped.
pub open spec fn step_done<F: FileSystem>(
    m0: MountTable<F>,
    s0: Seq<Option<Dentry>>,
    m1: MountTable<F>,
    s1: Seq<Option<Dentry>>,
    step: (u8, Seq<u8>, Seq<u8>),
) -> bool {
    if step.0 == STEP_MKDIR {
        exists|r: Result<(), FsError>| #[trigger] mkdir_path_effect(m0, s0, m1, s1, step.1, r)
    } else if step.0 == STEP_WRITE {
        exists|r: Result<(), FsError>| #[trigger] write_path_effect(m0, s0, m1, s1, step.1, step.2, true, r)
    } else {
        exists|r: Result<(), FsError>| #[trigger] symlink_path_effect(m0, s0, m1, s1, step.1, step.2, r)
    }
}

/// How the setup steps `steps`, taken in order, leave the mounts and the
/// cache slots.
pub open spec fn steps_done<F: FileSystem>(
    m0: MountTable<F>,
    s0: Seq<Option<Dentry>>,
    m1: MountTable<F>,
    s1: Seq<Option<Dentry>>,
    steps: Seq<(u8, Seq<u8>, Seq<u8>)>,
) -> bool
    decreases steps.len(),
{
    if steps.len() == 0 {
        m1 == m0 && s1 == s0
    } else {
        exists|mm: MountTable<F>, ss: Seq<Option<Dentry>>|
            #[trigger] step_done(m0, s0, mm, ss, steps[0]) && steps_done(mm, ss, m1, s1, steps.drop_first())
    }
}

/// Taking one more step after `steps` is taking `steps.push(step)`.
proof fn lemma_steps_push<F: FileSystem>(
    am: MountTable<F>,
    as_: Seq<Option<Dentry>>,
    bm: MountTable<F>,
    bs: Seq<Option<Dentry>>,
    cm: MountTable<F>,
    cs: Seq<Option<Dentry>>,
    steps: Seq<(u8, Seq<u8>, Seq<u8>)>,
    step: (u8, Seq<u8>, Seq<u8>),
)
    requires
        steps_done(am, as_, bm, bs, steps),
        step_done(bm, bs, cm, cs, step),
    ensures
        steps_done(am, as_, cm, cs, steps.push(step)),
    decreases steps.len(),
{
    assert(steps.push(step)[0] == if steps.len() == 0 { step } else { steps[0] });
    if steps.len() == 0 {
        assert(steps.push(step).drop_first() =~= Seq::<(u8, Seq<u8>, Seq<u8>)>::empty());
        assert(steps_done(cm, cs, cm, cs, steps.push(step).drop_first()));
        assert(step_done(am, as_, cm, cs, steps.push(step)[0]));
    } else {
        let (mm, ss) = choose|mm: MountTable<F>, ss: Seq<Option<Dentry>>|
            #[trigger] step_done(am, as_, mm, ss, steps[0]) && steps_done(mm, ss, bm, bs, steps.drop_first());
        lemma_steps_push(mm, ss, bm, bs, cm, cs, steps.drop_first(), step);
        assert(steps.push(step).drop_first() =~= steps.drop_first().push(step));
        assert(step_done(am, as_, mm, ss, steps.push(step)[0]));
    }
}

/// A `mkdir_path` is a directory step.
proof fn lemma_mkdir_step<F: FileSystem>(
    m0: MountTable<F>,
    s0: Seq<Option<Dentry>>,
    m1: MountTable<F>,
    s1: Seq<Option<Dentry>>,
    path: Seq<u8>,
    r: Result<(), FsError>,
)
    requires
        mkdir_path_effect(m0, s0, m1, s1, path, r),
    ensures
        step_done(m0, s0, m1, s1, (STEP_MKDIR, path, Seq::<u8>::empty())),
{
    let st = (STEP_MKDIR, path, Seq::<u8>::empty());
    assert(st.0 == STEP_MKDIR && st.1 == path);
    assert(mkdir_path_effect(m0, s0, m1, s1, st.1, r));
}

/// A `write_path` that makes a missing file is a write step.
proof fn lemma_write_step<F: FileSystem>(
    m0: MountTable<F>,
    s0: Seq<Option<Dentry>>,
    m1: MountTable<F>,
    s1: Seq<Option<Dentry>>,
    path: Seq<u8>,
    data: Seq<u8>,
    r: Result<(), FsError>,
)
    requires
        write_path_effect(m0, s0, m1, s1, path, data, true, r),
    ensures
        step_done(m0, s0, m1, s1, (STEP_WRITE, path, data)),
{
    let st = (STEP_WRITE, path, data);
    assert(st.0 == STEP_WRITE && st.1 == path && st.2 == data);
    assert(write_path_effect(m0, s0, m1, s1, st.1, st.2, true, r));
}

/// A `symlink_path` is a link step.
proof fn lemma_link_step<F: FileSystem>(
    m0: MountTable<F>,
    s0: Seq<Option<Dentry>>,
    m1: MountTable<F>,
    s1: Seq<Option<Dentry>>,
    link: Seq<u8>,
    target: Seq<u8>,
    r: Result<(), FsError>,
)
    requires
        symlink_path_effect(m0, s0, m1, s1, link, target, r),
    ensures
        step_done(m0, s0, m1, s1, (STEP_LINK, link, target)),
{
    let st = (STEP_LINK, link, target);
    assert(st.0 == STEP_LINK && st.1 == link && st.2 == target);
    assert(symlink_path_effect(m0, s0, m1, s1, st.1, st.2, r));
}

/// The directories `populate` makes, in order.
pub open spec fn dir_steps() -> Seq<(u8, Seq<u8>, Seq<u8>)> {
    seq![
        (STEP_MKDIR, "/bin".spec_bytes(), Seq::<u8>::empty()),
        (STEP_MKDIR, "/lib".spec_bytes(), Seq::<u8>::empty()),
        (STEP_MKDIR, "/etc".spec_bytes(), Seq::<u8>::empty()),
        (STEP_MKDIR, "/root".spec_bytes(), Seq::<u8>::empty()),
        (STEP_MKDIR, "/home".spec_bytes(), Seq::<u8>::empty()),
        (STEP_MKDIR, "/var".spec_bytes(), Seq::<u8>::empty()),
        (STEP_MKDIR, "/var/run".spec_bytes(), Seq::<u8>::empty()),
    ]
}

/// The names `applets` gives.
pub open spec fn applet_names() -> Seq<&'static str> {
    seq!["ls", "cat", "echo", "mkdir", "mount", "ps", "cp", "mv", "rm", "grep", "sh", "ash"]
}

/// A symlink `/bin/<name>` to `busybox` for each applet, in order.
pub open spec fn applet_links() -> Seq<(u8, Seq<u8>, Seq<u8>)> {
    Seq::new(applet_names().len(), |i: int| (STEP_LINK, seq![0x2fu8, 0x62, 0x69, 0x6e, 0x2f] + applet_names()[i].spec_bytes(),
        "busybox".spec_bytes()))
}

/// A write of `data` to `path` when `data` is not empty; nothing otherwise.
pub open spec fn write_if_present(path: Seq<u8>, data: Seq<u8>) -> Seq<(u8, Seq<u8>, Seq<u8>)> {
    if data.len() > 0 { seq![(STEP_WRITE, path, data)] } else { Seq::empty() }
}

/// The steps that install the embedded programs: each image that is not
/// empty is written to its path, and with busybox come the applet links.
pub open spec fn embedded_steps(images: EmbeddedImages) -> Seq<(u8, Seq<u8>, Seq<u8>)> {
    write_if_present("/bin/init".spec_bytes(), images.init@)
        + write_if_present("/bin/sh".spec_bytes(), images.sh@)
        + write_if_present("/bin/ui".spec_bytes(), images.ui@)
        + (if images.busybox@.len() > 0 { write_if_present("/bin/busybox".spec_bytes(), images.busybox@) + applet_links() } else { Seq::empty() })
        + write_if_present("/lib/ld-musl-x86_64.so.1".spec_bytes(), images.ld_musl@)
}

/// The last step of installing the programs: when `/bin/sh` cannot be read
/// and `/bin/init` can, `/bin/sh` becomes a symlink to `init`. The reads go
/// through the dentry cache like any other.
pub open spec fn sh_fallback<F: FileSystem>(
    m0: MountTable<F>,
    s0: Seq<Option<Dentry>>,
    m1: MountTable<F>,
    s1: Seq<Option<Dentry>>,
) -> bool {
    let sh = "/bin/sh".spec_bytes();
    let init = "/bin/init".spec_bytes();
    let s_sh = path_lookup(m0, s0, sh, true).1;
    if read_path_result(m0, s0, sh) is Ok {
        m1 == m0 && s1 == s_sh
    } else {
        let s_init = path_lookup(m0, s_sh, init, true).1;
        if read_path_result(m0, s_sh, init) is Err {
            m1 == m0 && s1 == s_init
        } else {
            step_done(m0, s_init, m1, s1, (STEP_LINK, sh, "init".spec_bytes()))
        }
    }
}

/// How installing the embedded programs leaves the mounts and the cache
/// slots: the steps of `embedded_steps`, then `sh_fallback`.
pub open spec fn install_embedded_effect<F: FileSystem>(
    m0: MountTable<F>,
    s0: Seq<Option<Dentry>>,
    m1: MountTable<F>,
    s1: Seq<Option<Dentry>>,
    images: EmbeddedImages,
) -> bool {
    exists|ma: MountTable<F>, sa: Seq<Option<Dentry>>|
        #[trigger] steps_done(m0, s0, ma, sa, embedded_steps(images)) && sh_fallback(ma, sa, m1, s1)
}

/// The files of `/etc` and what they hold, in the order they are written.
pub open spec fn etc_steps() -> Seq<(u8, Seq<u8>, Seq<u8>)> {
    seq![
        (STEP_WRITE, "/etc/passwd".spec_bytes(), "root:x:0:0:root:/root:/bin/sh\n".spec_bytes()),
        (STEP_WRITE, "/etc/group".spec_bytes(), "root:x:0:\n".spec_bytes()),
        (STEP_WRITE, "/etc/hosts".spec_bytes(), "127.0.0.1 localhost\n".spec_bytes()),
        (STEP_WRITE, "/etc/inittab".spec_bytes(), "::sysinit:/bin/sh\n::respawn:/bin/sh\n".spec_bytes()),
    ]
}

/// How `populate` leaves the mounts and the cache slots: the directories of
/// `dir_steps`, then the embedded programs, then the files of `/etc`.
pub open spec fn populate_effect<F: FileSystem>(
    m0: MountTable<F>,
    s0: Seq<Option<Dentry>>,
    m1: MountTable<F>,
    s1: Seq<Option<Dentry>>,
    images: EmbeddedImages,
) -> bool {
    exists|ma: MountTable<F>, sa: Seq<Option<Dentry>>, mb: MountTable<F>, sb: Seq<Option<Dentry>>|
        #[trigger] steps_done(m0, s0, ma, sa, dir_steps()) && #[trigger] install_embedded_effect(ma, sa, mb, sb, images)
            && steps_done(mb, sb, m1, s1, etc_steps())
}

/// Makes `/bin /lib /etc /root /home /var /var/run`, installs the embedded
/// programs and writes the files of `/etc`. Each step that fails is skipped.
pub fn populate<F: FileSystem>(vfs: &mut Vfs<F>, images: &EmbeddedImages)
    requires
        old(vfs).wf(),
    ensures
        final(vfs).wf(),
        populate_effect(old(vfs).mounts, old(vfs).dentries.slots(), final(vfs).mounts, final(vfs).dentries.slots(), *images),
{
    let ghost m0 = vfs.mounts;
    let ghost s0 = vfs.dentries.slots();
    let ghost mut done: Seq<(u8, Seq<u8>, Seq<u8>)> = Seq::empty();
    assert(steps_done(m0, s0, m0, s0, done));
    let ghost pm = vfs.mounts;
    let ghost ps = vfs.dentries.slots();
    let rr = mkdir_path(vfs, "/bin".as_bytes());
    proof {
        lemma_mkdir_step(pm, ps, vfs.mounts, vfs.dentries.slots(), "/bin".spec_bytes(), rr);
        lemma_steps_push(m0, s0, pm, ps, vfs.mounts, vfs.dentries.slots(), done, (STEP_MKDIR, "/bin".spec_bytes(), Seq::<u8>::empty()));
        done = done.push((STEP_MKDIR, "/bin".spec_bytes(), Seq::<u8>::empty()));
    }
    let ghost pm = vfs.mounts;
    let ghost ps = vfs.dentries.slots();
    let rr = mkdir_path(vfs, "/lib".as_bytes());
    proof {
        lemma_mkdir_step(pm, ps, vfs.mounts, vfs.dentries.slots(), "/lib".spec_bytes(), rr);
        lemma_steps_push(m0, s0, pm, ps, vfs.mounts, vfs.dentries.slots(), done, (STEP_MKDIR, "/lib".spec_bytes(), Seq::<u8>::empty()));
        done = done.push((STEP_MKDIR, "/lib".spec_bytes(), Seq::<u8>::empty()));
    }
    let ghost pm = vfs.mounts;
    let ghost ps = vfs.dentries.slots();
    let rr = mkdir_path(vfs, "/etc".as_bytes());
    proof {
        lemma_mkdir_step(pm, ps, vfs.mounts, vfs.dentries.slots(), "/etc".spec_bytes(), rr);
        lemma_steps_push(m0, s0, pm, ps, vfs.mounts, vfs.dentries.slots(), done, (STEP_MKDIR, "/etc".spec_bytes(), Seq::<u8>::empty()));
        done = done.push((STEP_MKDIR, "/etc".spec_bytes(), Seq::<u8>::empty()));
    }
    let ghost pm = vfs.mounts;
    let ghost ps = vfs.dentries.slots();
    let rr = mkdir_path(vfs, "/root".as_bytes());
    proof {
        lemma_mkdir_step(pm, ps, vfs.mounts, vfs.dentries.slots(), "/root".spec_bytes(), rr);
        lemma_steps_push(m0, s0, pm, ps, vfs.mounts, vfs.dentries.slots(), done, (STEP_MKDIR, "/root".spec_bytes(), Seq::<u8>::empty()));
        done = done.push((STEP_MKDIR, "/root".spec_bytes(), Seq::<u8>::empty()));
    }
    let ghost pm = vfs.mounts;
    let ghost ps = vfs.dentries.slots();
    let rr = mkdir_path(vfs, "/home".as_bytes());
    proof {
        lemma_mkdir_step(pm, ps, vfs.mounts, vfs.dentries.slots(), "/home".spec_bytes(), rr);
        lemma_steps_push(m0, s0, pm, ps, vfs.mounts, vfs.dentries.slots(), done, (STEP_MKDIR, "/home".spec_bytes(), Seq::<u8>::empty()));
        done = done.push((STEP_MKDIR, "/home".spec_bytes(), Seq::<u8>::empty()));
    }
    let ghost pm = vfs.mounts;
    let ghost ps = vfs.dentries.slots();
    let rr = mkdir_path(vfs, "/var".as_bytes());
    proof {
        lemma_mkdir_step(pm, ps, vfs.mounts, vfs.dentries.slots(), "/var".spec_bytes(), rr);
        lemma_steps_push(m0, s0, pm, ps, vfs.mounts, vfs.dentries.slots(), done, (STEP_MKDIR, "/var".spec_bytes(), Seq::<u8>::empty()));
        done = done.push((STEP_MKDIR, "/var".spec_bytes(), Seq::<u8>::empty()));
    }
    let ghost pm = vfs.mounts;
    let ghost ps = vfs.dentries.slots();
    let rr = mkdir_path(vfs, "/var/run".as_bytes());
    proof {
        lemma_mkdir_step(pm, ps, vfs.mounts, vfs.dentries.slots(), "/var/run".spec_bytes(), rr);
        lemma_steps_push(m0, s0, pm, ps, vfs.mounts, vfs.dentries.slots(), done, (STEP_MKDIR, "/var/run".spec_bytes(), Seq::<u8>::empty()));
        done = done.push((STEP_MKDIR, "/var/run".spec_bytes(), Seq::<u8>::empty()));
    }
    assert(done =~= dir_steps());
    let ghost ma = vfs.mounts;
    let ghost sa = vfs.dentries.slots();
    install_embedded(vfs, images);
    let ghost mb = vfs.mounts;
    let ghost sb = vfs.dentries.slots();
    install_etc(vfs);
    assert(steps_done(m0, s0, ma, sa, dir_steps()));
    assert(install_embedded_effect(ma, sa, mb, sb, *images));
}

/// The busybox applets linked into `/bin`.
pub fn applets() -> (r: Vec<&'static str>)
    ensures
        r@ == seq!["ls", "cat", "echo", "mkdir", "mount", "ps", "cp", "mv", "rm", "grep", "sh", "ash"],
{
    let mut v: Vec<&'static str> = Vec::new();
    v.push("ls");
    v.push("cat");
    v.push("echo");
    v.push("mkdir");
    v.push("mount");
    v.push("ps");
    v.push("cp");
    v.push("mv");
    v.push("rm");
    v.push("grep");
    v.push("sh");
    v.push("ash");
    assert(v@ =~= seq!["ls", "cat", "echo", "mkdir", "mount", "ps", "cp", "mv", "rm", "grep", "sh", "ash"]);
    v
}

/// `/bin/` followed by `name`.
pub fn bin_path(name: &str) -> (r: Vec<u8>)
    ensures
        r@ == seq![0x2fu8, 0x62, 0x69, 0x6e, 0x2f] + name.spec_bytes(),
{
    let mut p: Vec<u8> = vec![0x2fu8, 0x62, 0x69, 0x6e, 0x2f];
    let bytes = name.as_bytes();
    let mut i: usize = 0;
    while i < bytes.len()
        invariant
            0 <= i <= bytes@.len(),
            bytes@ == name.spec_bytes(),
            p@ == seq![0x2fu8, 0x62, 0x69, 0x6e, 0x2f] + bytes@.subrange(0, i as int),
        decreases bytes@.len() - i,
    {
        p.push(bytes[i]);
        proof {
            assert(bytes@.subrange(0, i + 1) =~= bytes@.subrange(0, i as int).push(bytes@[i as int]));
        }
        i = i + 1;
    }
    proof {
        assert(bytes@.subrange(0, bytes@.len() as int) =~= bytes@);
    }
    p
}

fn install_embedded<F: FileSystem>(vfs: &mut Vfs<F>, images: &EmbeddedImages)
    requires
        old(vfs).wf(),
    ensures
        final(vfs).wf(),
        install_embedded_effect(old(vfs).mounts, old(vfs).dentries.slots(), final(vfs).mounts, final(vfs).dentries.slots(), *images),
{
    let ghost m0 = vfs.mounts;
    let ghost s0 = vfs.dentries.slots();
    let ghost mut done: Seq<(u8, Seq<u8>, Seq<u8>)> = Seq::empty();
    assert(steps_done(m0, s0, m0, s0, done));
    let ghost pre_init = done;
    if images.init.len() > 0 {
        let ghost pm = vfs.mounts;
        let ghost ps = vfs.dentries.slots();
        let rr = write_path(vfs, "/bin/init".as_bytes(), images.init.as_slice(), true);
        proof {
            lemma_write_step(pm, ps, vfs.mounts, vfs.dentries.slots(), "/bin/init".spec_bytes(), images.init@, rr);
            lemma_steps_push(m0, s0, pm, ps, vfs.mounts, vfs.dentries.slots(), done, (STEP_WRITE, "/bin/init".spec_bytes(), images.init@));
            done = done.push((STEP_WRITE, "/bin/init".spec_bytes(), images.init@));
        }
    }
    assert(done =~= pre_init + write_if_present("/bin/init".spec_bytes(), images.init@));
    let ghost pre_sh = done;
    if images.sh.len() > 0 {
        let ghost pm = vfs.mounts;
        let ghost ps = vfs.dentries.slots();
        let rr = write_path(vfs, "/bin/sh".as_bytes(), images.sh.as_slice(), true);
        proof {
            lemma_write_step(pm, ps, vfs.mounts, vfs.dentries.slots(), "/bin/sh".spec_bytes(), images.sh@, rr);
            lemma_steps_push(m0, s0, pm, ps, vfs.mounts, vfs.dentries.slots(), done, (STEP_WRITE, "/bin/sh".spec_bytes(), images.sh@));
            done = done.push((STEP_WRITE, "/bin/sh".spec_bytes(), images.sh@));
        }
    }
    assert(done =~= pre_sh + write_if_present("/bin/sh".spec_bytes(), images.sh@));
    let ghost pre_ui = done;
    if images.ui.len() > 0 {
        let ghost pm = vfs.mounts;
        let ghost ps = vfs.dentries.slots();
        let rr = write_path(vfs, "/bin/ui".as_bytes(), images.ui.as_slice(), true);
        proof {
            lemma_write_step(pm, ps, vfs.mounts, vfs.dentries.slots(), "/bin/ui".spec_bytes(), images.ui@, rr);
            lemma_steps_push(m0, s0, pm, ps, vfs.mounts, vfs.dentries.slots(), done, (STEP_WRITE, "/bin/ui".spec_bytes(), images.ui@));
            done = done.push((STEP_WRITE, "/bin/ui".spec_bytes(), images.ui@));
        }
    }
    assert(done =~= pre_ui + write_if_present("/bin/ui".spec_bytes(), images.ui@));
    let ghost pre_busybox = done;
    if images.busybox.len() > 0 {
        let ghost pm = vfs.mounts;
        let ghost ps = vfs.dentries.slots();
        let rr = write_path(vfs, "/bin/busybox".as_bytes(), images.busybox.as_slice(), true);
        proof {
            lemma_write_step(pm, ps, vfs.mounts, vfs.dentries.slots(), "/bin/busybox".spec_bytes(), images.busybox@, rr);
            lemma_steps_push(m0, s0, pm, ps, vfs.mounts, vfs.dentries.slots(), done, (STEP_WRITE, "/bin/busybox".spec_bytes(), images.busybox@));
            done = done.push((STEP_WRITE, "/bin/busybox".spec_bytes(), images.busybox@));
        }
        let ghost before_links = done;
        let names = applets();
        assert(before_links + applet_links().subrange(0, 0) =~= done);
        let mut i: usize = 0;
        while i < names.len()
            invariant
                0 <= i <= names@.len(),
                names@ == applet_names(),
                vfs.wf(),
                done == before_links + applet_links().subrange(0, i as int),
                steps_done(m0, s0, vfs.mounts, vfs.dentries.slots(), done),
            decreases names@.len() - i,
        {
            let link = bin_path(names[i]);
            let ghost pm = vfs.mounts;
            let ghost ps = vfs.dentries.slots();
            let rr = symlink_path(vfs, link.as_slice(), "busybox".as_bytes());
            proof {
                let st = applet_links()[i as int];
                lemma_link_step(pm, ps, vfs.mounts, vfs.dentries.slots(), link@, "busybox".spec_bytes(), rr);
                assert(st == (STEP_LINK, link@, "busybox".spec_bytes()));
                lemma_steps_push(m0, s0, pm, ps, vfs.mounts, vfs.dentries.slots(), done, st);
                assert(before_links + applet_links().subrange(0, i + 1) =~= done.push(st));
                done = done.push(st);
            }
            i = i + 1;
        }
        assert(applet_links().subrange(0, 12) =~= applet_links());
    }
    assert(done =~= pre_busybox + (if images.busybox@.len() > 0 {
        write_if_present("/bin/busybox".spec_bytes(), images.busybox@) + applet_links()
    } else {
        Seq::empty()
    }));
    let ghost pre_ld_musl = done;
    if images.ld_musl.len() > 0 {
        let ghost pm = vfs.mounts;
        let ghost ps = vfs.dentries.slots();
        let rr = write_path(vfs, "/lib/ld-musl-x86_64.so.1".as_bytes(), images.ld_musl.as_slice(), true);
        proof {
            lemma_write_step(pm, ps, vfs.mounts, vfs.dentries.slots(), "/lib/ld-musl-x86_64.so.1".spec_bytes(), images.ld_musl@, rr);
            lemma_steps_push(m0, s0, pm, ps, vfs.mounts, vfs.dentries.slots(), done, (STEP_WRITE, "/lib/ld-musl-x86_64.so.1".spec_bytes(), images.ld_musl@));
            done = done.push((STEP_WRITE, "/lib/ld-musl-x86_64.so.1".spec_bytes(), images.ld_musl@));
        }
    }
    assert(done =~= pre_ld_musl + write_if_present("/lib/ld-musl-x86_64.so.1".spec_bytes(), images.ld_musl@));
    assert(done =~= embedded_steps(*images));
    let ghost ma = vfs.mounts;
    let ghost sa = vfs.dentries.slots();
    assert(steps_done(m0, s0, ma, sa, embedded_steps(*images)));
    let sh_missing = read_path(vfs, "/bin/sh".as_bytes()).is_err();
    let fall_back = if sh_missing {
        read_path(vfs, "/bin/init".as_bytes()).is_ok()
    } else {
        false
    };
    let ghost pm = vfs.mounts;
    let ghost ps = vfs.dentries.slots();
    if fall_back {
        let rr = symlink_path(vfs, "/bin/sh".as_bytes(), "init".as_bytes());
        proof {
            lemma_link_step(pm, ps, vfs.mounts, vfs.dentries.slots(), "/bin/sh".spec_bytes(), "init".spec_bytes(), rr);
        }
    }
    assert(sh_fallback(ma, sa, vfs.mounts, vfs.dentries.slots()));
}

fn install_etc<F: FileSystem>(vfs: &mut Vfs<F>)
    requires
        old(vfs).wf(),
    ensures
        final(vfs).wf(),
        steps_done(old(vfs).mounts, old(vfs).dentries.slots(), final(vfs).mounts, final(vfs).dentries.slots(), etc_steps()),
{
    let ghost m0 = vfs.mounts;
    let ghost s0 = vfs.dentries.slots();
    let ghost mut done: Seq<(u8, Seq<u8>, Seq<u8>)> = Seq::empty();
    assert(steps_done(m0, s0, m0, s0, done));
    let ghost pm = vfs.mounts;
    let ghost ps = vfs.dentries.slots();
    let rr = write_path(vfs, "/etc/passwd".as_bytes(), "root:x:0:0:root:/root:/bin/sh\n".as_bytes(), true);
    proof {
        lemma_write_step(pm, ps, vfs.mounts, vfs.dentries.slots(), "/etc/passwd".spec_bytes(), "root:x:0:0:root:/root:/bin/sh\n".spec_bytes(), rr);
        lemma_steps_push(m0, s0, pm, ps, vfs.mounts, vfs.dentries.slots(), done, (STEP_WRITE, "/etc/passwd".spec_bytes(), "root:x:0:0:root:/root:/bin/sh\n".spec_bytes()));
        done = done.push((STEP_WRITE, "/etc/passwd".spec_bytes(), "root:x:0:0:root:/root:/bin/sh\n".spec_bytes()));
    }
    let ghost pm = vfs.mounts;
    let ghost ps = vfs.dentries.slots();
    let rr = write_path(vfs, "/etc/group".as_bytes(), "root:x:0:\n".as_bytes(), true);
    proof {
        lemma_write_step(pm, ps, vfs.mounts, vfs.dentries.slots(), "/etc/group".spec_bytes(), "root:x:0:\n".spec_bytes(), rr);
        lemma_steps_push(m0, s0, pm, ps, vfs.mounts, vfs.dentries.slots(), done, (STEP_WRITE, "/etc/group".spec_bytes(), "root:x:0:\n".spec_bytes()));
        done = done.push((STEP_WRITE, "/etc/group".spec_bytes(), "root:x:0:\n".spec_bytes()));
    }
    let ghost pm = vfs.mounts;
    let ghost ps = vfs.dentries.slots();
    let rr = write_path(vfs, "/etc/hosts".as_bytes(), "127.0.0.1 localhost\n".as_bytes(), true);
    proof {
        lemma_write_step(pm, ps, vfs.mounts, vfs.dentries.slots(), "/etc/hosts".spec_bytes(), "127.0.0.1 localhost\n".spec_bytes(), rr);
        lemma_steps_push(m0, s0, pm, ps, vfs.mounts, vfs.dentries.slots(), done, (STEP_WRITE, "/etc/hosts".spec_bytes(), "127.0.0.1 localhost\n".spec_bytes()));
        done = done.push((STEP_WRITE, "/etc/hosts".spec_bytes(), "127.0.0.1 localhost\n".spec_bytes()));
    }
    let ghost pm = vfs.mounts;
    let ghost ps = vfs.dentries.slots();
    let rr = write_path(vfs, "/etc/inittab".as_bytes(), "::sysinit:/bin/sh\n::respawn:/bin/sh\n".as_bytes(), true);
    proof {
        lemma_write_step(pm, ps, vfs.mounts, vfs.dentries.slots(), "/etc/inittab".spec_bytes(), "::sysinit:/bin/sh\n::respawn:/bin/sh\n".spec_bytes(), rr);
        lemma_steps_push(m0, s0, pm, ps, vfs.mounts, vfs.dentries.slots(), done, (STEP_WRITE, "/etc/inittab".spec_bytes(), "::sysinit:/bin/sh\n::respawn:/bin/sh\n".spec_bytes()));
        done = done.push((STEP_WRITE, "/etc/inittab".spec_bytes(), "::sysinit:/bin/sh\n::respawn:/bin/sh\n".spec_bytes()));
    }
    assert(done =~= etc_steps());
}

} // verus!
