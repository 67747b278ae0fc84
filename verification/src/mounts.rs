//! What the jail sees of the file system.
use vstd::prelude::*;

use crate::argument::{add_path, add_text, shown_args, shown_words, words, Arg, Word};
use crate::config::{is_set, Config};
use crate::path::copy_bytes;
use crate::text::texts;

verus! {

/// Something that is mounted in the jail.
#[derive(Debug)]
pub enum Mount {
    /// A directory of the host that the jail may read.
    RoBind { src: Vec<u8>, dest: Vec<u8> },
    /// A directory of the host that the jail may read and write.
    Bind { src: Vec<u8>, dest: Vec<u8> },
    /// A device of the host.
    DevBind { src: Vec<u8>, dest: Vec<u8> },
    /// A new device directory.
    Dev { dest: Vec<u8> },
    /// A new process directory.
    Proc { dest: Vec<u8> },
    /// An empty file system in memory.
    Tmpfs { dest: Vec<u8> },
    /// A symbolic link.
    Symlink { src: String, dest: Vec<u8> },
    /// A file of the host that the jail may read.
    FileRoBind { src: Vec<u8>, dest: Vec<u8> },
}

/// The arguments for one mount.
pub open spec fn mount_words(mount: Mount) -> Seq<Word> {
    match mount {
        Mount::RoBind { src, dest } => seq![
            Word::Text("--ro-bind"@),
            Word::Path(src@),
            Word::Path(dest@),
        ],
        Mount::Bind { src, dest } => seq![
            Word::Text("--bind"@),
            Word::Path(src@),
            Word::Path(dest@),
        ],
        Mount::DevBind { src, dest } => seq![
            Word::Text("--dev-bind"@),
            Word::Path(src@),
            Word::Path(dest@),
        ],
        Mount::Dev { dest } => seq![Word::Text("--dev"@), Word::Path(dest@)],
        Mount::Proc { dest } => seq![Word::Text("--proc"@), Word::Path(dest@)],
        Mount::Tmpfs { dest } => seq![Word::Text("--tmpfs"@), Word::Path(dest@)],
        Mount::Symlink { src, dest } => seq![
            Word::Text("--symlink"@),
            Word::Text(src@),
            Word::Path(dest@),
        ],
        Mount::FileRoBind { src, dest } => seq![
            Word::Text("--ro-bind"@),
            Word::Path(src@),
            Word::Path(dest@),
        ],
    }
}

/// The arguments for mounts, in their order.
pub open spec fn mounts_words(mounts: Seq<Mount>) -> Seq<Word>
    decreases mounts.len(),
{
    if mounts.len() == 0 {
        Seq::empty()
    } else {
        mounts_words(mounts.drop_last()) + mount_words(mounts.last())
    }
}

/// Appends the arguments for one mount.
fn add_mount(args: &mut Vec<Arg>, mount: &Mount)
    ensures
        words(final(args)@) == words(old(args)@) + mount_words(*mount),
{
    match mount {
        Mount::RoBind { src, dest } => {
            add_text(args, "--ro-bind");
            add_path(args, src.as_slice());
            add_path(args, dest.as_slice());
        },
        Mount::Bind { src, dest } => {
            add_text(args, "--bind");
            add_path(args, src.as_slice());
            add_path(args, dest.as_slice());
        },
        Mount::DevBind { src, dest } => {
            add_text(args, "--dev-bind");
            add_path(args, src.as_slice());
            add_path(args, dest.as_slice());
        },
        Mount::Dev { dest } => {
            add_text(args, "--dev");
            add_path(args, dest.as_slice());
        },
        Mount::Proc { dest } => {
            add_text(args, "--proc");
            add_path(args, dest.as_slice());
        },
        Mount::Tmpfs { dest } => {
            add_text(args, "--tmpfs");
            add_path(args, dest.as_slice());
        },
        Mount::Symlink { src, dest } => {
            add_text(args, "--symlink");
            add_text(args, src.as_str());
            add_path(args, dest.as_slice());
        },
        Mount::FileRoBind { src, dest } => {
            add_text(args, "--ro-bind");
            add_path(args, src.as_slice());
            add_path(args, dest.as_slice());
        },
    }
    assert(words(args@) =~= words(old(args)@) + mount_words(*mount));
}

/// Appends the arguments for mounts, in their order.
pub fn add_mounts(args: &mut Vec<Arg>, mounts: &[Mount])
    ensures
        words(final(args)@) == words(old(args)@) + mounts_words(mounts@),
{
    let ghost before = words(args@);
    let mut i: usize = 0;
    assert(before + mounts_words(mounts@.take(0)) =~= before);
    while i < mounts.len()
        invariant
            i <= mounts.len(),
            words(args@) == before + mounts_words(mounts@.take(i as int)),
        decreases mounts.len() - i,
    {
        add_mount(args, &mounts[i]);
        assert(mounts@.take(i + 1).drop_last() =~= mounts@.take(i as int));
        assert(mounts@.take(i + 1).last() == mounts@[i as int]);
        assert(words(args@) =~= before + mounts_words(mounts@.take(i + 1)));
        i = i + 1;
    }
    assert(mounts@.take(i as int) =~= mounts@);
}

/// The arguments for mounts, as a dry run shows them.
pub fn mount_args(mounts: &[Mount]) -> (args: Vec<String>)
    ensures
        texts(args@) == shown_words(mounts_words(mounts@)),
{
    let mut args: Vec<Arg> = Vec::new();
    add_mounts(&mut args, mounts);
    assert(words(args@) =~= mounts_words(mounts@));
    shown_args(args.as_slice())
}

/// What the host offers to a jail, as found on the file system and in the
/// environment.
pub struct HostMounts {
    pub base: Vec<Mount>,
    pub home_dotfiles: Vec<Mount>,
    pub config_hide: Vec<Mount>,
    pub cache_hide: Vec<Mount>,
    pub local_overrides: Vec<Mount>,
    pub gpu: Vec<Mount>,
    pub docker: Vec<Mount>,
    pub shm: Vec<Mount>,
    pub display: Vec<Mount>,
    /// The variables that programs need to reach the display.
    pub display_env: Vec<(String, String)>,
}

/// What a jail gets.
pub struct MountSet {
    pub base: Vec<Mount>,
    pub home_dotfiles: Vec<Mount>,
    pub config_hide: Vec<Mount>,
    pub cache_hide: Vec<Mount>,
    pub local_overrides: Vec<Mount>,
    pub gpu: Vec<Mount>,
    pub docker: Vec<Mount>,
    pub shm: Vec<Mount>,
    pub display: Vec<Mount>,
    pub display_env: Vec<(String, String)>,
    pub extra: Vec<Mount>,
    pub project: Vec<Mount>,
}

/// Whether `mount` makes `path` readable and writable in the jail, where it stands on
/// the host.
pub open spec fn is_rw_map(mount: Mount, path: Seq<u8>) -> bool {
    mount matches Mount::Bind { src, dest } && src@ == path && dest@ == path
}

/// Whether `mount` makes `path` readable in the jail, where it stands on the host.
pub open spec fn is_ro_map(mount: Mount, path: Seq<u8>) -> bool {
    mount matches Mount::RoBind { src, dest } && src@ == path && dest@ == path
}

/// Whether `mounts` maps first the paths of `rw_maps`, then those of `ro_maps`.
pub open spec fn are_extra_maps(
    mounts: Seq<Mount>,
    rw_maps: Seq<Vec<u8>>,
    ro_maps: Seq<Vec<u8>>,
) -> bool {
    &&& mounts.len() == rw_maps.len() + ro_maps.len()
    &&& forall|i: int| 0 <= i < rw_maps.len() ==> is_rw_map(#[trigger] mounts[i], rw_maps[i]@)
    &&& forall|i: int|
        rw_maps.len() <= i < mounts.len() ==> is_ro_map(
            #[trigger] mounts[i],
            ro_maps[i - rw_maps.len()]@,
        )
}

/// The mounts for the paths that the user adds.
pub fn extra_mounts(rw_maps: &[Vec<u8>], ro_maps: &[Vec<u8>]) -> (mounts: Vec<Mount>)
    ensures
        are_extra_maps(mounts@, rw_maps@, ro_maps@),
        mounts@.len() == rw_maps@.len() + ro_maps@.len(),
        forall|i: int|
            0 <= i < rw_maps@.len() ==> (#[trigger] mounts@[i] matches Mount::Bind { src, dest }
                && src@ == rw_maps@[i]@ && dest@ == rw_maps@[i]@),
        forall|i: int|
            rw_maps@.len() <= i < mounts@.len() ==> (#[trigger] mounts@[i] matches Mount::RoBind {
                src,
                dest,
            } && src@ == ro_maps@[i - rw_maps@.len()]@ && dest@ == ro_maps@[i - rw_maps@.len()]@),
{
    let mut mounts: Vec<Mount> = Vec::new();
    let mut i: usize = 0;
    while i < rw_maps.len()
        invariant
            i <= rw_maps.len(),
            mounts@.len() == i,
            forall|k: int| 0 <= k < i ==> is_rw_map(#[trigger] mounts@[k], rw_maps@[k]@),
        decreases rw_maps.len() - i,
    {
        let path = rw_maps[i].as_slice();
        mounts.push(Mount::Bind { src: copy_bytes(path), dest: copy_bytes(path) });
        i = i + 1;
    }
    let mut j: usize = 0;
    while j < ro_maps.len()
        invariant
            j <= ro_maps.len(),
            mounts@.len() == rw_maps@.len() + j,
            forall|k: int| 0 <= k < rw_maps@.len() ==> is_rw_map(#[trigger] mounts@[k], rw_maps@[k]@),
            forall|k: int|
                rw_maps@.len() <= k < mounts@.len() ==> is_ro_map(
                    #[trigger] mounts@[k],
                    ro_maps@[k - rw_maps@.len()]@,
                ),
        decreases ro_maps.len() - j,
    {
        let path = ro_maps[j].as_slice();
        mounts.push(Mount::RoBind { src: copy_bytes(path), dest: copy_bytes(path) });
        j = j + 1;
    }
    mounts
}

/// The mount for the project, which the jail may read and write.
pub fn project_mount(project_dir: &[u8]) -> (mounts: Vec<Mount>)
    ensures
        mounts@.len() == 1,
        is_rw_map(mounts@[0], project_dir@),
        mounts@[0] matches Mount::Bind { src, dest } && src@ == project_dir@ && dest@
            == project_dir@,
{
    let mut mounts: Vec<Mount> = Vec::new();
    mounts.push(Mount::Bind { src: copy_bytes(project_dir), dest: copy_bytes(project_dir) });
    mounts
}

/// The parts of the host that can be kept out of the jail, and whether they are let
/// in.
#[derive(Clone, Copy, Debug, PartialEq, Eq, Structural)]
pub struct Sources {
    pub gpu: bool,
    pub docker: bool,
    pub display: bool,
}

/// Which parts of the host are let into the jail: all that are not switched off.
pub fn enabled_sources(config: &Config) -> (enabled: Sources)
    ensures
        enabled.gpu <==> config.no_gpu != Some(true),
        enabled.docker <==> config.no_docker != Some(true),
        enabled.display <==> config.no_display != Some(true),
{
    Sources {
        gpu: !is_set(config.no_gpu),
        docker: !is_set(config.no_docker),
        display: !is_set(config.no_display),
    }
}

/// The mounts of a part of the host, none where it is switched off.
pub open spec fn let_in<T>(switched_off: Option<bool>, found: Seq<T>) -> Seq<T> {
    if switched_off == Some(true) {
        Seq::empty()
    } else {
        found
    }
}

/// What the jail gets, of what the host offers: everything that is not switched off,
/// the paths that the user adds, and the project.
pub fn discover_mounts(config: &Config, project_dir: &[u8], host: HostMounts) -> (set: MountSet)
    ensures
        set.base == host.base,
        set.home_dotfiles == host.home_dotfiles,
        set.config_hide == host.config_hide,
        set.cache_hide == host.cache_hide,
        set.local_overrides == host.local_overrides,
        set.shm == host.shm,
        set.gpu@ == let_in(config.no_gpu, host.gpu@),
        set.docker@ == let_in(config.no_docker, host.docker@),
        set.display@ == let_in(config.no_display, host.display@),
        set.display_env@ == let_in(config.no_display, host.display_env@),
        are_extra_maps(set.extra@, config.rw_maps@, config.ro_maps@),
        set.project@.len() == 1,
        is_rw_map(set.project@[0], project_dir@),
        config.no_gpu == Some(true) ==> set.gpu@.len() == 0,
        config.no_gpu != Some(true) ==> set.gpu@ == host.gpu@,
        config.no_docker == Some(true) ==> set.docker@.len() == 0,
        config.no_docker != Some(true) ==> set.docker@ == host.docker@,
        config.no_display == Some(true) ==> set.display@.len() == 0 && set.display_env@.len() == 0,
        config.no_display != Some(true) ==> set.display@ == host.display@ && set.display_env@
            == host.display_env@,
        set.extra@.len() == config.rw_maps@.len() + config.ro_maps@.len(),
        forall|i: int|
            0 <= i < config.rw_maps@.len() ==> (#[trigger] set.extra@[i] matches Mount::Bind {
                src,
                dest,
            } && src@ == config.rw_maps@[i]@ && dest@ == config.rw_maps@[i]@),
        forall|i: int|
            config.rw_maps@.len() <= i < set.extra@.len() ==> (
            #[trigger] set.extra@[i] matches Mount::RoBind { src, dest } && src@
                == config.ro_maps@[i - config.rw_maps@.len()]@ && dest@ == config.ro_maps@[i
                - config.rw_maps@.len()]@),
        set.project@[0] matches Mount::Bind { src, dest } && src@ == project_dir@ && dest@
            == project_dir@,
{
    let enabled = enabled_sources(config);
    let (display, display_env) = if enabled.display {
        (host.display, host.display_env)
    } else {
        (Vec::new(), Vec::new())
    };
    MountSet {
        base: host.base,
        home_dotfiles: host.home_dotfiles,
        config_hide: host.config_hide,
        cache_hide: host.cache_hide,
        local_overrides: host.local_overrides,
        gpu: if enabled.gpu {
            host.gpu
        } else {
            Vec::new()
        },
        docker: if enabled.docker {
            host.docker
        } else {
            Vec::new()
        },
        shm: host.shm,
        display,
        display_env,
        extra: extra_mounts(config.rw_maps.as_slice(), config.ro_maps.as_slice()),
        project: project_mount(project_dir),
    }
}

} // verus!
