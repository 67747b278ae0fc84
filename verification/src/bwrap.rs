//! The jail on Linux: the command line of `bwrap`.
use vstd::prelude::*;

use crate::argument::{
    add_path, add_text, dry_run_shows_what_runs, raw_args, raw_words, shown_args, shown_words,
    words, Arg, Word,
};
use crate::config::Config;
use crate::mounts::{
    add_mounts, are_extra_maps, discover_mounts, is_ro_map, is_rw_map, let_in, mount_words,
    mounts_words, HostMounts, Mount, MountSet,
};
use crate::path::{display, raws};
use crate::shell::{build_shell_command, shell_command};
use crate::text::{holds, holds_in_first, holds_in_second, holds_itself, texts};

verus! {

/// How asking `bwrap` for its version went.
#[derive(Clone, Copy, Debug, PartialEq, Eq, Structural)]
pub enum VersionReply {
    /// It ran and succeeded.
    Succeeded,
    /// It ran and failed.
    Failed,
    /// It could not be started.
    NotStarted,
}

/// The complaint about a `bwrap` that does not work.
pub open spec fn bwrap_broken() -> Seq<char> {
    "bwrap found but returned an error. Check your installation."@
}

/// The complaint about a missing `bwrap`.
pub open spec fn bwrap_missing() -> Seq<char> {
    "bwrap (bubblewrap) not found. Install it:\n  Arch: pacman -S bubblewrap\n  Debian/Ubuntu: apt install bubblewrap\n  Fedora: dnf install bubblewrap"@
}

/// Whether `bwrap` can be used, and what to tell the user where it cannot.
pub fn check_bwrap(reply: VersionReply) -> (checked: Result<(), String>)
    ensures
        match checked {
            Ok(_) => reply is Succeeded,
            Err(complaint) => match reply {
                VersionReply::Succeeded => false,
                VersionReply::Failed => complaint@ == bwrap_broken(),
                VersionReply::NotStarted => complaint@ == bwrap_missing(),
            },
        },
        reply is Failed ==> (checked matches Err(complaint) && complaint@
            == "bwrap found but returned an error. Check your installation."@),
        reply is NotStarted ==> (checked matches Err(complaint) && complaint@
            == "bwrap (bubblewrap) not found. Install it:\n  Arch: pacman -S bubblewrap\n  Debian/Ubuntu: apt install bubblewrap\n  Fedora: dnf install bubblewrap"@),
{
    match reply {
        VersionReply::Succeeded => Ok(()),
        VersionReply::Failed => Err(
            "bwrap found but returned an error. Check your installation.".to_owned(),
        ),
        VersionReply::NotStarted => Err(
            "bwrap (bubblewrap) not found. Install it:\n  Arch: pacman -S bubblewrap\n  Debian/Ubuntu: apt install bubblewrap\n  Fedora: dnf install bubblewrap".to_owned(),
        ),
    }
}

/// The arguments that mount each of the paths, with `option`, where it stands on the
/// host.
pub open spec fn map_words(option: Seq<char>, paths: Seq<Vec<u8>>) -> Seq<Word>
    decreases paths.len(),
{
    if paths.len() == 0 {
        Seq::empty()
    } else {
        map_words(option, paths.drop_last()) + seq![
            Word::Text(option),
            Word::Path(paths.last()@),
            Word::Path(paths.last()@),
        ]
    }
}

/// The arguments that set the variables.
pub open spec fn env_words(variables: Seq<(String, String)>) -> Seq<Word>
    decreases variables.len(),
{
    if variables.len() == 0 {
        Seq::empty()
    } else {
        env_words(variables.drop_last()) + seq![
            Word::Text("--setenv"@),
            Word::Text(variables.last().0@),
            Word::Text(variables.last().1@),
        ]
    }
}

/// The arguments for everything that is mounted, in the order in which later mounts
/// cover earlier ones: the project comes last.
pub open spec fn mount_section(config: Config, project_dir: Seq<u8>, host: HostMounts) -> Seq<
    Word,
> {
    mounts_words(host.base@) + mounts_words(let_in(config.no_gpu, host.gpu@)) + mounts_words(
        host.shm@,
    ) + mounts_words(let_in(config.no_docker, host.docker@)) + mounts_words(
        let_in(config.no_display, host.display@),
    ) + mounts_words(host.home_dotfiles@) + mounts_words(host.config_hide@) + mounts_words(
        host.cache_hide@,
    ) + mounts_words(host.local_overrides@) + map_words("--bind"@, config.rw_maps@) + map_words(
        "--ro-bind"@,
        config.ro_maps@,
    ) + seq![Word::Text("--bind"@), Word::Path(project_dir), Word::Path(project_dir)]
}

/// The arguments for the working directory and the isolation of the jail.
pub open spec fn isolation_section(project_dir: Seq<u8>) -> Seq<Word> {
    seq![
        Word::Text("--chdir"@),
        Word::Path(project_dir),
        Word::Text("--die-with-parent"@),
        Word::Text("--unshare-pid"@),
        Word::Text("--unshare-uts"@),
        Word::Text("--unshare-ipc"@),
        Word::Text("--hostname"@),
        Word::Text("ai-sandbox"@),
    ]
}

/// The arguments for the variables that every jail gets.
pub open spec fn standard_env_section() -> Seq<Word> {
    seq![
        Word::Text("--setenv"@),
        Word::Text("PS1"@),
        Word::Text("(jail) \\w \\$ "@),
        Word::Text("--setenv"@),
        Word::Text("_ZO_DOCTOR"@),
        Word::Text("0"@),
    ]
}

/// The arguments for the command inside the jail.
pub open spec fn command_section(command: Seq<char>) -> Seq<Word> {
    seq![Word::Text("bash"@), Word::Text("-c"@), Word::Text(command)]
}

/// The command line of a jail, program first.
pub open spec fn bwrap_words(
    config: Config,
    project_dir: Seq<u8>,
    host: HostMounts,
    mise: Option<Vec<u8>>,
) -> Seq<Word> {
    seq![Word::Text("bwrap"@)] + mount_section(config, project_dir, host) + isolation_section(
        project_dir,
    ) + env_words(let_in(config.no_display, host.display_env@)) + standard_env_section()
        + command_section(shell_command(config, mise))
}

/// Mapping paths for reading and writing yields the arguments of such maps.
proof fn rw_maps_words(mounts: Seq<Mount>, paths: Seq<Vec<u8>>)
    requires
        mounts.len() == paths.len(),
        forall|i: int| 0 <= i < paths.len() ==> is_rw_map(#[trigger] mounts[i], paths[i]@),
    ensures
        mounts_words(mounts) == map_words("--bind"@, paths),
    decreases paths.len(),
{
    if paths.len() > 0 {
        let most = mounts.drop_last();
        assert forall|i: int| 0 <= i < paths.drop_last().len() implies is_rw_map(
            #[trigger] most[i],
            paths.drop_last()[i]@,
        ) by {
            assert(most[i] == mounts[i]);
        }
        rw_maps_words(most, paths.drop_last());
        assert(is_rw_map(mounts[paths.len() - 1], paths[paths.len() - 1]@));
        assert(mounts_words(mounts) =~= map_words("--bind"@, paths));
    }
}

/// The added mounts yield the arguments of the maps for reading and writing, then of
/// those for reading.
proof fn extra_maps_words(mounts: Seq<Mount>, rw_maps: Seq<Vec<u8>>, ro_maps: Seq<Vec<u8>>)
    requires
        are_extra_maps(mounts, rw_maps, ro_maps),
    ensures
        mounts_words(mounts) == map_words("--bind"@, rw_maps) + map_words("--ro-bind"@, ro_maps),
    decreases ro_maps.len(),
{
    if ro_maps.len() == 0 {
        rw_maps_words(mounts, rw_maps);
        assert(map_words("--bind"@, rw_maps) + map_words("--ro-bind"@, ro_maps) =~= map_words(
            "--bind"@,
            rw_maps,
        ));
    } else {
        let most = mounts.drop_last();
        assert(are_extra_maps(most, rw_maps, ro_maps.drop_last())) by {
            assert forall|i: int| 0 <= i < rw_maps.len() implies is_rw_map(
                #[trigger] most[i],
                rw_maps[i]@,
            ) by {
                assert(most[i] == mounts[i]);
            }
            assert forall|i: int| rw_maps.len() <= i < most.len() implies is_ro_map(
                #[trigger] most[i],
                ro_maps.drop_last()[i - rw_maps.len()]@,
            ) by {
                assert(most[i] == mounts[i]);
            }
        }
        extra_maps_words(most, rw_maps, ro_maps.drop_last());
        assert(is_ro_map(mounts[mounts.len() - 1], ro_maps[ro_maps.len() - 1]@));
        assert(mounts_words(mounts) =~= map_words("--bind"@, rw_maps) + map_words(
            "--ro-bind"@,
            ro_maps,
        ));
    }
}

/// Appends the arguments for everything that is mounted.
fn add_mount_section(
    args: &mut Vec<Arg>,
    config: &Config,
    project_dir: &[u8],
    set: &MountSet,
    Ghost(host): Ghost<HostMounts>,
)
    requires
        set.base == host.base,
        set.home_dotfiles == host.home_dotfiles,
        set.config_hide == host.config_hide,
        set.cache_hide == host.cache_hide,
        set.local_overrides == host.local_overrides,
        set.shm == host.shm,
        set.gpu@ == let_in(config.no_gpu, host.gpu@),
        set.docker@ == let_in(config.no_docker, host.docker@),
        set.display@ == let_in(config.no_display, host.display@),
        are_extra_maps(set.extra@, config.rw_maps@, config.ro_maps@),
        set.project@.len() == 1,
        is_rw_map(set.project@[0], project_dir@),
    ensures
        words(final(args)@) == words(old(args)@) + mount_section(*config, project_dir@, host),
{
    let ghost before = words(args@);
    add_mounts(args, set.base.as_slice());
    add_mounts(args, set.gpu.as_slice());
    add_mounts(args, set.shm.as_slice());
    add_mounts(args, set.docker.as_slice());
    add_mounts(args, set.display.as_slice());
    add_mounts(args, set.home_dotfiles.as_slice());
    add_mounts(args, set.config_hide.as_slice());
    add_mounts(args, set.cache_hide.as_slice());
    add_mounts(args, set.local_overrides.as_slice());
    add_mounts(args, set.extra.as_slice());
    add_mounts(args, set.project.as_slice());
    proof {
        extra_maps_words(set.extra@, config.rw_maps@, config.ro_maps@);
        let project = set.project@;
        assert(project.drop_last() =~= Seq::<Mount>::empty());
        assert(mounts_words(project.drop_last()) =~= Seq::<Word>::empty());
        assert(mounts_words(project) =~= mount_words(project[0]));
        assert(words(args@) =~= before + mount_section(*config, project_dir@, host));
    }
}

/// Appends the arguments for the working directory and the isolation of the jail.
fn add_isolation_section(args: &mut Vec<Arg>, project_dir: &[u8])
    ensures
        words(final(args)@) == words(old(args)@) + isolation_section(project_dir@),
{
    let ghost before = words(args@);
    add_text(args, "--chdir");
    add_path(args, project_dir);
    add_text(args, "--die-with-parent");
    add_text(args, "--unshare-pid");
    add_text(args, "--unshare-uts");
    add_text(args, "--unshare-ipc");
    add_text(args, "--hostname");
    add_text(args, "ai-sandbox");
    assert(words(args@) =~= before + isolation_section(project_dir@));
}

/// Appends the arguments that set the variables.
fn add_env(args: &mut Vec<Arg>, variables: &[(String, String)])
    ensures
        words(final(args)@) == words(old(args)@) + env_words(variables@),
{
    let ghost before = words(args@);
    let mut i: usize = 0;
    assert(before + env_words(variables@.take(0)) =~= before);
    while i < variables.len()
        invariant
            i <= variables.len(),
            words(args@) == before + env_words(variables@.take(i as int)),
        decreases variables.len() - i,
    {
        add_text(args, "--setenv");
        add_text(args, variables[i].0.as_str());
        add_text(args, variables[i].1.as_str());
        assert(variables@.take(i + 1).drop_last() =~= variables@.take(i as int));
        assert(variables@.take(i + 1).last() == variables@[i as int]);
        assert(words(args@) =~= before + env_words(variables@.take(i + 1)));
        i = i + 1;
    }
    assert(variables@.take(i as int) =~= variables@);
}

/// Appends the arguments for the variables that every jail gets.
fn add_standard_env(args: &mut Vec<Arg>)
    ensures
        words(final(args)@) == words(old(args)@) + standard_env_section(),
{
    let ghost before = words(args@);
    add_text(args, "--setenv");
    add_text(args, "PS1");
    add_text(args, "(jail) \\w \\$ ");
    add_text(args, "--setenv");
    add_text(args, "_ZO_DOCTOR");
    add_text(args, "0");
    assert(words(args@) =~= before + standard_env_section());
}

/// The command line of a jail, program first.
fn bwrap_args(
    config: &Config,
    project_dir: &[u8],
    host: HostMounts,
    mise: &Option<Vec<u8>>,
) -> (args: Vec<Arg>)
    ensures
        words(args@) == bwrap_words(*config, project_dir@, host, *mise),
{
    let ghost offered = host;
    let set = discover_mounts(config, project_dir, host);
    let mut args: Vec<Arg> = Vec::new();
    add_text(&mut args, "bwrap");
    assert(words(args@) =~= seq![Word::Text("bwrap"@)]);
    add_mount_section(&mut args, config, project_dir, &set, Ghost(offered));
    add_isolation_section(&mut args, project_dir);
    add_env(&mut args, set.display_env.as_slice());
    add_standard_env(&mut args);
    let command = build_shell_command(config, mise);
    let ghost before = words(args@);
    add_text(&mut args, "bash");
    add_text(&mut args, "-c");
    add_text(&mut args, command.as_str());
    assert(words(args@) =~= before + command_section(command@));
    args
}

/// The command line that starts a jail, program first, in the bytes that the started
/// program gets: what `host` offers, the project at `project_dir`, and the command of
/// `config`, set up by the `mise` that was found.
pub fn build_bwrap(
    config: &Config,
    project_dir: &[u8],
    host: HostMounts,
    mise: &Option<Vec<u8>>,
) -> (argv: Vec<Vec<u8>>)
    ensures
        raws(argv@) == raw_words(bwrap_words(*config, project_dir@, host, *mise)),
{
    let args = bwrap_args(config, project_dir, host, mise);
    raw_args(args.as_slice())
}

/// The command line that would start a jail, program first, as a dry run shows it.
pub fn build_bwrap_dry_run(
    config: &Config,
    project_dir: &[u8],
    host: HostMounts,
    mise: &Option<Vec<u8>>,
) -> (args: Vec<String>)
    ensures
        texts(args@) == shown_words(bwrap_words(*config, project_dir@, host, *mise)),
{
    let args = bwrap_args(config, project_dir, host, mise);
    shown_args(args.as_slice())
}

/// A dry run shows each argument of the command that would run, as its bytes are
/// displayed, and no others.
pub proof fn bwrap_dry_run_shows_what_runs(
    config: Config,
    project_dir: Seq<u8>,
    host: HostMounts,
    mise: Option<Vec<u8>>,
)
    ensures
        shown_words(bwrap_words(config, project_dir, host, mise)) == raw_words(
            bwrap_words(config, project_dir, host, mise),
        ).map_values(|bytes: Seq<u8>| display(bytes)),
{
    dry_run_shows_what_runs(bwrap_words(config, project_dir, host, mise));
}

/// Where the GPU is switched off, the jail is the same whatever GPU the host has.
pub proof fn gpu_switched_off_is_kept_out(
    config: Config,
    project_dir: Seq<u8>,
    host: HostMounts,
    mise: Option<Vec<u8>>,
    gpu: Vec<Mount>,
)
    requires
        config.no_gpu == Some(true),
    ensures
        bwrap_words(config, project_dir, HostMounts { gpu, ..host }, mise) == bwrap_words(
            config,
            project_dir,
            host,
            mise,
        ),
{
}

/// Where Docker is switched off, the jail is the same whatever Docker socket the host
/// has.
pub proof fn docker_switched_off_is_kept_out(
    config: Config,
    project_dir: Seq<u8>,
    host: HostMounts,
    mise: Option<Vec<u8>>,
    docker: Vec<Mount>,
)
    requires
        config.no_docker == Some(true),
    ensures
        bwrap_words(config, project_dir, HostMounts { docker, ..host }, mise) == bwrap_words(
            config,
            project_dir,
            host,
            mise,
        ),
{
}

/// Where the display is switched off, the jail is the same whatever display the host
/// has: neither its mounts nor its variables are let in.
pub proof fn display_switched_off_is_kept_out(
    config: Config,
    project_dir: Seq<u8>,
    host: HostMounts,
    mise: Option<Vec<u8>>,
    display: Vec<Mount>,
    display_env: Vec<(String, String)>,
)
    requires
        config.no_display == Some(true),
    ensures
        bwrap_words(config, project_dir, HostMounts { display, display_env, ..host }, mise)
            == bwrap_words(config, project_dir, host, mise),
{
}

/// The last mount of every jail is that of the project, for reading and writing, and
/// the jail starts there.
pub proof fn project_is_mounted_last_and_entered(
    config: Config,
    project_dir: Seq<u8>,
    host: HostMounts,
    mise: Option<Vec<u8>>,
)
    ensures
        ({
            let argv = bwrap_words(config, project_dir, host, mise);
            let mounted = 1 + mount_section(config, project_dir, host).len() as int;
            argv.subrange(mounted - 3, mounted + 2) == seq![
                Word::Text("--bind"@),
                Word::Path(project_dir),
                Word::Path(project_dir),
                Word::Text("--chdir"@),
                Word::Path(project_dir),
            ]
        }),
{
    let argv = bwrap_words(config, project_dir, host, mise);
    let mounted = 1 + mount_section(config, project_dir, host).len() as int;
    assert(argv.subrange(mounted - 3, mounted + 2) =~= seq![
        Word::Text("--bind"@),
        Word::Path(project_dir),
        Word::Path(project_dir),
        Word::Text("--chdir"@),
        Word::Path(project_dir),
    ]);
}

/// Every jail dies with its parent, has processes, host name and inter-process
/// communication of its own, and gets the standard variables.
pub proof fn every_jail_is_isolated(
    config: Config,
    project_dir: Seq<u8>,
    host: HostMounts,
    mise: Option<Vec<u8>>,
)
    ensures
        holds(bwrap_words(config, project_dir, host, mise), isolation_section(project_dir)),
        holds(bwrap_words(config, project_dir, host, mise), standard_env_section()),
{
    let mounts = seq![Word::Text("bwrap"@)] + mount_section(config, project_dir, host);
    let isolation = isolation_section(project_dir);
    let display = env_words(let_in(config.no_display, host.display_env@));
    let standard = standard_env_section();
    let command = command_section(shell_command(config, mise));
    holds_itself(isolation);
    holds_in_second(mounts, isolation, isolation);
    holds_in_first(mounts + isolation, display, isolation);
    holds_in_first(mounts + isolation + display, standard, isolation);
    holds_in_first(mounts + isolation + display + standard, command, isolation);
    holds_itself(standard);
    holds_in_second(mounts + isolation + display, standard, standard);
    holds_in_first(mounts + isolation + display + standard, command, standard);
}

/// Every command line starts with `bwrap` and ends with the shell that runs the
/// command.
pub proof fn jail_runs_the_command(
    config: Config,
    project_dir: Seq<u8>,
    host: HostMounts,
    mise: Option<Vec<u8>>,
)
    ensures
        ({
            let argv = bwrap_words(config, project_dir, host, mise);
            &&& argv[0] == Word::Text("bwrap"@)
            &&& argv.subrange(argv.len() - 3, argv.len() as int) == command_section(
                shell_command(config, mise),
            )
        }),
{
    let argv = bwrap_words(config, project_dir, host, mise);
    assert(argv.subrange(argv.len() - 3, argv.len() as int) =~= command_section(
        shell_command(config, mise),
    ));
}

/// Among the arguments for mounts stand those for each of them.
proof fn mounts_words_hold_each(mounts: Seq<Mount>, i: int)
    requires
        0 <= i < mounts.len(),
    ensures
        holds(mounts_words(mounts), mount_words(mounts[i])),
    decreases mounts.len(),
{
    let most = mounts_words(mounts.drop_last());
    let last = mount_words(mounts.last());
    if i == mounts.len() - 1 {
        holds_itself(last);
        holds_in_second(most, last, last);
    } else {
        mounts_words_hold_each(mounts.drop_last(), i);
        holds_in_first(most, last, mount_words(mounts[i]));
    }
}

/// Among the arguments for maps stand those for each of the paths.
proof fn map_words_hold_each(option: Seq<char>, paths: Seq<Vec<u8>>, i: int)
    requires
        0 <= i < paths.len(),
    ensures
        holds(
            map_words(option, paths),
            seq![Word::Text(option), Word::Path(paths[i]@), Word::Path(paths[i]@)],
        ),
    decreases paths.len(),
{
    let part = seq![Word::Text(option), Word::Path(paths[i]@), Word::Path(paths[i]@)];
    let most = map_words(option, paths.drop_last());
    let last = seq![
        Word::Text(option),
        Word::Path(paths.last()@),
        Word::Path(paths.last()@),
    ];
    if i == paths.len() - 1 {
        holds_itself(last);
        holds_in_second(most, last, last);
    } else {
        map_words_hold_each(option, paths.drop_last(), i);
        holds_in_first(most, last, part);
    }
}

/// Whether the arguments for each of the mounts stand in `argv`.
pub open spec fn makes_all(argv: Seq<Word>, mounts: Seq<Mount>) -> bool {
    forall|i: int| 0 <= i < mounts.len() ==> holds(argv, mount_words(#[trigger] mounts[i]))
}

/// Whether the arguments that map each of the paths with `option` stand in `argv`.
pub open spec fn maps_all(argv: Seq<Word>, option: Seq<char>, paths: Seq<Vec<u8>>) -> bool {
    forall|i: int|
        0 <= i < paths.len() ==> holds(
            argv,
            seq![
                Word::Text(option),
                Word::Path((#[trigger] paths[i])@),
                Word::Path(paths[i]@),
            ],
        )
}

/// What stands among the arguments for everything that is mounted stands in the
/// command line.
proof fn mount_section_is_in_argv(
    config: Config,
    project_dir: Seq<u8>,
    host: HostMounts,
    mise: Option<Vec<u8>>,
    part: Seq<Word>,
)
    requires
        holds(mount_section(config, project_dir, host), part),
    ensures
        holds(bwrap_words(config, project_dir, host, mise), part),
{
    let program = seq![Word::Text("bwrap"@)];
    let mounts = mount_section(config, project_dir, host);
    let isolation = isolation_section(project_dir);
    let display = env_words(let_in(config.no_display, host.display_env@));
    let standard = standard_env_section();
    let command = command_section(shell_command(config, mise));
    holds_in_second(program, mounts, part);
    holds_in_first(program + mounts, isolation, part);
    holds_in_first(program + mounts + isolation, display, part);
    holds_in_first(program + mounts + isolation + display, standard, part);
    holds_in_first(program + mounts + isolation + display + standard, command, part);
}

/// What stands in one of the pieces stands in all of them together.
proof fn holds_in_one_of(pieces: Seq<Seq<Word>>, k: int, part: Seq<Word>)
    requires
        0 <= k < pieces.len(),
        holds(pieces[k], part),
    ensures
        holds(joined(pieces), part),
    decreases pieces.len(),
{
    if k == pieces.len() - 1 {
        holds_in_second(joined(pieces.drop_last()), pieces.last(), part);
    } else {
        holds_in_one_of(pieces.drop_last(), k, part);
        holds_in_first(joined(pieces.drop_last()), pieces.last(), part);
    }
}

/// The pieces, one after the other.
spec fn joined(pieces: Seq<Seq<Word>>) -> Seq<Word>
    decreases pieces.len(),
{
    if pieces.len() == 0 {
        Seq::empty()
    } else {
        joined(pieces.drop_last()) + pieces.last()
    }
}

/// Joining one piece more appends it.
proof fn joined_with(pieces: Seq<Seq<Word>>, piece: Seq<Word>)
    ensures
        joined(pieces.push(piece)) == joined(pieces) + piece,
{
    assert(pieces.push(piece).drop_last() =~= pieces);
}

/// The arguments for the mounts of each part of the host, for the added paths and for
/// the project.
spec fn mount_pieces(config: Config, project_dir: Seq<u8>, host: HostMounts) -> Seq<Seq<Word>> {
    Seq::empty().push(mounts_words(host.base@)).push(
        mounts_words(let_in(config.no_gpu, host.gpu@)),
    ).push(mounts_words(host.shm@)).push(
        mounts_words(let_in(config.no_docker, host.docker@)),
    ).push(mounts_words(let_in(config.no_display, host.display@))).push(
        mounts_words(host.home_dotfiles@),
    ).push(mounts_words(host.config_hide@)).push(mounts_words(host.cache_hide@)).push(
        mounts_words(host.local_overrides@),
    ).push(map_words("--bind"@, config.rw_maps@)).push(
        map_words("--ro-bind"@, config.ro_maps@),
    ).push(seq![Word::Text("--bind"@), Word::Path(project_dir), Word::Path(project_dir)])
}

/// The arguments for everything that is mounted are these pieces, joined.
proof fn mount_section_is_joined(config: Config, project_dir: Seq<u8>, host: HostMounts)
    ensures
        mount_section(config, project_dir, host) == joined(
            mount_pieces(config, project_dir, host),
        ),
{
    let pieces = mount_pieces(config, project_dir, host);
    let first = Seq::<Seq<Word>>::empty();
    joined_with(first, pieces[0]);
    assert(joined(first) + pieces[0] =~= pieces[0]);
    let p1 = first.push(pieces[0]);
    joined_with(p1, pieces[1]);
    let p2 = p1.push(pieces[1]);
    joined_with(p2, pieces[2]);
    let p3 = p2.push(pieces[2]);
    joined_with(p3, pieces[3]);
    let p4 = p3.push(pieces[3]);
    joined_with(p4, pieces[4]);
    let p5 = p4.push(pieces[4]);
    joined_with(p5, pieces[5]);
    let p6 = p5.push(pieces[5]);
    joined_with(p6, pieces[6]);
    let p7 = p6.push(pieces[6]);
    joined_with(p7, pieces[7]);
    let p8 = p7.push(pieces[7]);
    joined_with(p8, pieces[8]);
    let p9 = p8.push(pieces[8]);
    joined_with(p9, pieces[9]);
    let p10 = p9.push(pieces[9]);
    joined_with(p10, pieces[10]);
    let p11 = p10.push(pieces[10]);
    joined_with(p11, pieces[11]);
}

/// The mounts of the piece at `k` are all made.
proof fn mounts_are_made(
    config: Config,
    project_dir: Seq<u8>,
    host: HostMounts,
    mise: Option<Vec<u8>>,
    k: int,
    mounts: Seq<Mount>,
)
    requires
        0 <= k < mount_pieces(config, project_dir, host).len(),
        mount_pieces(config, project_dir, host)[k] == mounts_words(mounts),
    ensures
        makes_all(bwrap_words(config, project_dir, host, mise), mounts),
{
    mount_section_is_joined(config, project_dir, host);
    assert forall|i: int| 0 <= i < mounts.len() implies holds(
        bwrap_words(config, project_dir, host, mise),
        mount_words(#[trigger] mounts[i]),
    ) by {
        mounts_words_hold_each(mounts, i);
        holds_in_one_of(mount_pieces(config, project_dir, host), k, mount_words(mounts[i]));
        mount_section_is_in_argv(config, project_dir, host, mise, mount_words(mounts[i]));
    }
}

/// The maps of the piece at `k` are all made.
proof fn maps_are_made(
    config: Config,
    project_dir: Seq<u8>,
    host: HostMounts,
    mise: Option<Vec<u8>>,
    k: int,
    option: Seq<char>,
    paths: Seq<Vec<u8>>,
)
    requires
        0 <= k < mount_pieces(config, project_dir, host).len(),
        mount_pieces(config, project_dir, host)[k] == map_words(option, paths),
    ensures
        maps_all(bwrap_words(config, project_dir, host, mise), option, paths),
{
    mount_section_is_joined(config, project_dir, host);
    assert forall|i: int| 0 <= i < paths.len() implies holds(
        bwrap_words(config, project_dir, host, mise),
        seq![Word::Text(option), Word::Path((#[trigger] paths[i])@), Word::Path(paths[i]@)],
    ) by {
        let part = seq![Word::Text(option), Word::Path(paths[i]@), Word::Path(paths[i]@)];
        map_words_hold_each(option, paths, i);
        holds_in_one_of(mount_pieces(config, project_dir, host), k, part);
        mount_section_is_in_argv(config, project_dir, host, mise, part);
    }
}

/// Every mount that the host offers, and that is not switched off, is made, and every
/// path that the user adds is mapped: writable or readable, as the user asked.
pub proof fn everything_let_in_is_mounted(
    config: Config,
    project_dir: Seq<u8>,
    host: HostMounts,
    mise: Option<Vec<u8>>,
)
    ensures
        makes_all(bwrap_words(config, project_dir, host, mise), host.base@),
        makes_all(bwrap_words(config, project_dir, host, mise), let_in(config.no_gpu, host.gpu@)),
        makes_all(bwrap_words(config, project_dir, host, mise), host.shm@),
        makes_all(bwrap_words(config, project_dir, host, mise), let_in(config.no_docker, host.docker@)),
        makes_all(bwrap_words(config, project_dir, host, mise), let_in(config.no_display, host.display@)),
        makes_all(bwrap_words(config, project_dir, host, mise), host.home_dotfiles@),
        makes_all(bwrap_words(config, project_dir, host, mise), host.config_hide@),
        makes_all(bwrap_words(config, project_dir, host, mise), host.cache_hide@),
        makes_all(bwrap_words(config, project_dir, host, mise), host.local_overrides@),
        maps_all(bwrap_words(config, project_dir, host, mise), "--bind"@, config.rw_maps@),
        maps_all(bwrap_words(config, project_dir, host, mise), "--ro-bind"@, config.ro_maps@),
{
    mounts_are_made(config, project_dir, host, mise, 0, host.base@);
    mounts_are_made(config, project_dir, host, mise, 1, let_in(config.no_gpu, host.gpu@));
    mounts_are_made(config, project_dir, host, mise, 2, host.shm@);
    mounts_are_made(config, project_dir, host, mise, 3, let_in(config.no_docker, host.docker@));
    mounts_are_made(config, project_dir, host, mise, 4, let_in(config.no_display, host.display@));
    mounts_are_made(config, project_dir, host, mise, 5, host.home_dotfiles@);
    mounts_are_made(config, project_dir, host, mise, 6, host.config_hide@);
    mounts_are_made(config, project_dir, host, mise, 7, host.cache_hide@);
    mounts_are_made(config, project_dir, host, mise, 8, host.local_overrides@);
    maps_are_made(config, project_dir, host, mise, 9, "--bind"@, config.rw_maps@);
    maps_are_made(config, project_dir, host, mise, 10, "--ro-bind"@, config.ro_maps@);
}

} // verus!
