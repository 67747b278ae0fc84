//! What `bwrap` makes of the command line of a jail.
use vstd::prelude::*;

use crate::argument::Word;
use crate::bwrap::{
    bwrap_words, command_section, env_words, isolation_section, map_words, mount_section,
    standard_env_section,
};
use crate::config::Config;
use crate::mounts::{mount_words, mounts_words, HostMounts, Mount};
use crate::shell::shell_command;

verus! {

/// An option on a command line, with its operands.
pub struct Setting {
    pub option: Seq<char>,
    pub operands: Seq<Word>,
}

/// How many operands `bwrap` takes with an option; none where it is no option.
pub open spec fn operand_count(option: Seq<char>) -> Option<int> {
    if option == "--ro-bind"@ || option == "--bind"@ || option == "--dev-bind"@ || option
        == "--symlink"@ || option == "--setenv"@ {
        Some(2)
    } else if option == "--dev"@ || option == "--proc"@ || option == "--tmpfs"@ || option
        == "--chdir"@ || option == "--hostname"@ {
        Some(1)
    } else if option == "--die-with-parent"@ || option == "--unshare-pid"@ || option
        == "--unshare-uts"@ || option == "--unshare-ipc"@ {
        Some(0)
    } else {
        None
    }
}

/// The options that `bwrap` reads at the beginning of its arguments, in the order in which
/// it carries them out, and the arguments after them: the command.
pub open spec fn settings_of(args: Seq<Word>) -> (Seq<Setting>, Seq<Word>)
    decreases args.len(),
{
    if args.len() > 0 {
        match args[0] {
            Word::Text(option) => match operand_count(option) {
                Some(n) => if n < args.len() {
                    let rest = settings_of(args.skip(n + 1));
                    (
                        seq![Setting { option, operands: args.subrange(1, n + 1) }] + rest.0,
                        rest.1,
                    )
                } else {
                    (Seq::empty(), args)
                },
                None => (Seq::empty(), args),
            },
            Word::Path(_) => (Seq::empty(), args),
        }
    } else {
        (Seq::empty(), args)
    }
}

/// What a mount asks of `bwrap`.
pub open spec fn asked(mount: Mount) -> Setting {
    match mount {
        Mount::RoBind { src, dest } => Setting {
            option: "--ro-bind"@,
            operands: seq![Word::Path(src@), Word::Path(dest@)],
        },
        Mount::Bind { src, dest } => Setting {
            option: "--bind"@,
            operands: seq![Word::Path(src@), Word::Path(dest@)],
        },
        Mount::DevBind { src, dest } => Setting {
            option: "--dev-bind"@,
            operands: seq![Word::Path(src@), Word::Path(dest@)],
        },
        Mount::Dev { dest } => Setting { option: "--dev"@, operands: seq![Word::Path(dest@)] },
        Mount::Proc { dest } => Setting { option: "--proc"@, operands: seq![Word::Path(dest@)] },
        Mount::Tmpfs { dest } => Setting { option: "--tmpfs"@, operands: seq![Word::Path(dest@)] },
        Mount::Symlink { src, dest } => Setting {
            option: "--symlink"@,
            operands: seq![Word::Text(src@), Word::Path(dest@)],
        },
        Mount::FileRoBind { src, dest } => Setting {
            option: "--ro-bind"@,
            operands: seq![Word::Path(src@), Word::Path(dest@)],
        },
    }
}

/// What mounts ask of `bwrap`, one after the other; nothing where they are switched off.
pub open spec fn asked_unless(switched_off: bool, mounts: Seq<Mount>) -> Seq<Setting> {
    if switched_off {
        Seq::empty()
    } else {
        Seq::new(mounts.len(), |i: int| asked(mounts[i]))
    }
}

/// That each of the paths be mapped where it stands on the host.
pub open spec fn mapped(option: Seq<char>, paths: Seq<Vec<u8>>) -> Seq<Setting> {
    Seq::new(
        paths.len(),
        |i: int|
            Setting { option, operands: seq![Word::Path(paths[i]@), Word::Path(paths[i]@)] },
    )
}

/// That each of the variables be set.
pub open spec fn set(variables: Seq<(String, String)>) -> Seq<Setting> {
    Seq::new(
        variables.len(),
        |i: int|
            Setting {
                option: "--setenv"@,
                operands: seq![Word::Text(variables[i].0@), Word::Text(variables[i].1@)],
            },
    )
}

/// An option with one operand.
pub open spec fn with_operand(option: Seq<char>, operand: Word) -> Setting {
    Setting { option, operands: seq![operand] }
}

/// An option alone.
pub open spec fn alone(option: Seq<char>) -> Setting {
    Setting { option, operands: Seq::empty() }
}

/// That a variable be set.
pub open spec fn variable(name: Seq<char>, value: Seq<char>) -> Setting {
    Setting { option: "--setenv"@, operands: seq![Word::Text(name), Word::Text(value)] }
}

/// The mounts that the host gets to make, before any that the user adds.
spec fn host_settings(config: Config, host: HostMounts) -> Seq<Setting> {
    asked_unless(false, host.base@) + asked_unless(config.no_gpu == Some(true), host.gpu@)
        + asked_unless(false, host.shm@) + asked_unless(
        config.no_docker == Some(true),
        host.docker@,
    ) + asked_unless(config.no_display == Some(true), host.display@) + asked_unless(
        false,
        host.home_dotfiles@,
    ) + asked_unless(false, host.config_hide@) + asked_unless(false, host.cache_hide@)
        + asked_unless(false, host.local_overrides@)
}

/// Whether words at the beginning of arguments are read as these settings, whatever
/// follows them.
spec fn reads(words: Seq<Word>, settings: Seq<Setting>) -> bool {
    forall|rest: Seq<Word>|
        #[trigger] settings_of(words + rest) == (settings + settings_of(rest).0, settings_of(
            rest,
        ).1)
}

/// No words are read as no settings.
proof fn nothing_reads_as_nothing()
    ensures
        reads(Seq::empty(), Seq::empty()),
{
    assert forall|rest: Seq<Word>| #[trigger]
        settings_of(Seq::<Word>::empty() + rest) == (Seq::<Setting>::empty() + settings_of(
            rest,
        ).0, settings_of(rest).1) by {
        assert(Seq::<Word>::empty() + rest =~= rest);
        assert(Seq::<Setting>::empty() + settings_of(rest).0 =~= settings_of(rest).0);
    }
}

/// Words after words are read as the settings of both.
proof fn reads_joined(a: Seq<Word>, x: Seq<Setting>, b: Seq<Word>, y: Seq<Setting>)
    requires
        reads(a, x),
        reads(b, y),
    ensures
        reads(a + b, x + y),
{
    assert forall|rest: Seq<Word>| #[trigger]
        settings_of(a + b + rest) == (x + y + settings_of(rest).0, settings_of(rest).1) by {
        assert(a + b + rest =~= a + (b + rest));
        assert(settings_of(a + (b + rest)) == (x + settings_of(b + rest).0, settings_of(
            b + rest,
        ).1));
        assert(settings_of(b + rest) == (y + settings_of(rest).0, settings_of(rest).1));
        assert(x + (y + settings_of(rest).0) =~= x + y + settings_of(rest).0);
    }
}

/// An option with as many operands as it takes is read as that option with them.
proof fn option_reads(option: Seq<char>, operands: Seq<Word>)
    requires
        operand_count(option) == Some(operands.len() as int),
    ensures
        reads(seq![Word::Text(option)] + operands, seq![Setting { option, operands }]),
{
    let words = seq![Word::Text(option)] + operands;
    let settings = seq![Setting { option, operands }];
    assert forall|rest: Seq<Word>| #[trigger]
        settings_of(words + rest) == (settings + settings_of(rest).0, settings_of(rest).1) by {
        let args = words + rest;
        assert(args[0] == Word::Text(option));
        assert(args.skip(operands.len() as int + 1) =~= rest);
        assert(args.subrange(1, operands.len() as int + 1) =~= operands);
    }
}

/// The words of a mount are read as what it asks.
proof fn mount_reads(mount: Mount)
    ensures
        reads(mount_words(mount), seq![asked(mount)]),
{
    let setting = asked(mount);
    reveal_options();
    option_reads(setting.option, setting.operands);
    assert(mount_words(mount) =~= seq![Word::Text(setting.option)] + setting.operands);
}

/// What the literals of the options hold.
proof fn reveal_options()
    ensures
        operand_count("--ro-bind"@) == Some(2int),
        operand_count("--bind"@) == Some(2int),
        operand_count("--dev-bind"@) == Some(2int),
        operand_count("--symlink"@) == Some(2int),
        operand_count("--setenv"@) == Some(2int),
        operand_count("--dev"@) == Some(1int),
        operand_count("--proc"@) == Some(1int),
        operand_count("--tmpfs"@) == Some(1int),
        operand_count("--chdir"@) == Some(1int),
        operand_count("--hostname"@) == Some(1int),
        operand_count("--die-with-parent"@) == Some(0int),
        operand_count("--unshare-pid"@) == Some(0int),
        operand_count("--unshare-uts"@) == Some(0int),
        operand_count("--unshare-ipc"@) == Some(0int),
        operand_count("bash"@) is None,
{
    reveal_strlit("--ro-bind");
    reveal_strlit("--bind");
    reveal_strlit("--dev-bind");
    reveal_strlit("--symlink");
    reveal_strlit("--setenv");
    reveal_strlit("--dev");
    reveal_strlit("--proc");
    reveal_strlit("--tmpfs");
    reveal_strlit("--chdir");
    reveal_strlit("--hostname");
    reveal_strlit("--die-with-parent");
    reveal_strlit("--unshare-pid");
    reveal_strlit("--unshare-uts");
    reveal_strlit("--unshare-ipc");
    reveal_strlit("bash");
    assert("--dev"@.len() == 5);
    assert("--proc"@.len() == 6);
    assert("--bind"@.len() == 6);
    assert("--dev"@[2] == 'd');
    assert("--proc"@[2] == 'p');
    assert("--bind"@[2] == 'b');
    assert("--tmpfs"@[2] == 't');
    assert("--chdir"@[2] == 'c');
    assert("--ro-bind"@[2] == 'r');
    assert("--symlink"@[3] == 'y');
    assert("--setenv"@[3] == 'e');
    assert("--dev-bind"@[2] == 'd');
    assert("--hostname"@[2] == 'h');
    assert("--unshare-pid"@[2] == 'u');
    assert("--unshare-uts"@[2] == 'u');
    assert("--unshare-ipc"@[2] == 'u');
    assert("--die-with-parent"@[3] == 'i');
}

/// The words of mounts are read as what they ask, one after the other.
proof fn mounts_read(mounts: Seq<Mount>)
    ensures
        reads(mounts_words(mounts), asked_unless(false, mounts)),
    decreases mounts.len(),
{
    if mounts.len() == 0 {
        nothing_reads_as_nothing();
        assert(mounts_words(mounts) =~= Seq::<Word>::empty());
        assert(asked_unless(false, mounts) =~= Seq::<Setting>::empty());
    } else {
        let most = mounts.drop_last();
        mounts_read(most);
        mount_reads(mounts.last());
        reads_joined(
            mounts_words(most),
            asked_unless(false, most),
            mount_words(mounts.last()),
            seq![asked(mounts.last())],
        );
        assert(asked_unless(false, mounts) =~= asked_unless(false, most) + seq![
            asked(mounts.last()),
        ]);
    }
}

/// The words of mounts that may be switched off are read as what they ask.
proof fn switched_mounts_read(switch: Option<bool>, mounts: Seq<Mount>)
    ensures
        reads(
            mounts_words(crate::mounts::let_in(switch, mounts)),
            asked_unless(switch == Some(true), mounts),
        ),
{
    let let_in = crate::mounts::let_in(switch, mounts);
    mounts_read(let_in);
    assert(asked_unless(false, let_in) =~= asked_unless(switch == Some(true), mounts));
}

/// The words of maps are read as maps.
proof fn maps_read(option: Seq<char>, paths: Seq<Vec<u8>>)
    requires
        operand_count(option) == Some(2int),
    ensures
        reads(map_words(option, paths), mapped(option, paths)),
    decreases paths.len(),
{
    if paths.len() == 0 {
        nothing_reads_as_nothing();
        assert(map_words(option, paths) =~= Seq::<Word>::empty());
        assert(mapped(option, paths) =~= Seq::<Setting>::empty());
    } else {
        let most = paths.drop_last();
        let last = paths.last()@;
        let operands = seq![Word::Path(last), Word::Path(last)];
        maps_read(option, most);
        option_reads(option, operands);
        assert(seq![Word::Text(option)] + operands =~= seq![
            Word::Text(option),
            Word::Path(last),
            Word::Path(last),
        ]);
        reads_joined(
            map_words(option, most),
            mapped(option, most),
            seq![Word::Text(option)] + operands,
            seq![Setting { option, operands }],
        );
        assert(mapped(option, paths) =~= mapped(option, most) + seq![
            Setting { option, operands },
        ]);
    }
}

/// The words that set variables are read as that.
proof fn env_reads(variables: Seq<(String, String)>)
    ensures
        reads(env_words(variables), set(variables)),
    decreases variables.len(),
{
    if variables.len() == 0 {
        nothing_reads_as_nothing();
        assert(env_words(variables) =~= Seq::<Word>::empty());
        assert(set(variables) =~= Seq::<Setting>::empty());
    } else {
        let most = variables.drop_last();
        let option = "--setenv"@;
        let operands = seq![Word::Text(variables.last().0@), Word::Text(variables.last().1@)];
        env_reads(most);
        reveal_options();
        option_reads(option, operands);
        assert(seq![Word::Text(option)] + operands =~= seq![
            Word::Text(option),
            Word::Text(variables.last().0@),
            Word::Text(variables.last().1@),
        ]);
        reads_joined(
            env_words(most),
            set(most),
            seq![Word::Text(option)] + operands,
            seq![Setting { option, operands }],
        );
        assert(set(variables) =~= set(most) + seq![Setting { option, operands }]);
    }
}

/// The words for everything that is mounted are read as the mounts of the host, the
/// added maps and the project.
proof fn mount_section_reads(config: Config, project_dir: Seq<u8>, host: HostMounts)
    ensures
        reads(
            mount_section(config, project_dir, host),
            host_settings(config, host) + mapped("--bind"@, config.rw_maps@) + mapped(
                "--ro-bind"@,
                config.ro_maps@,
            ) + seq![
                Setting {
                    option: "--bind"@,
                    operands: seq![Word::Path(project_dir), Word::Path(project_dir)],
                },
            ],
        ),
{
    let let_in_gpu = mounts_words(crate::mounts::let_in(config.no_gpu, host.gpu@));
    let let_in_docker = mounts_words(crate::mounts::let_in(config.no_docker, host.docker@));
    let let_in_display = mounts_words(crate::mounts::let_in(config.no_display, host.display@));
    let x1 = asked_unless(false, host.base@);
    let x2 = asked_unless(config.no_gpu == Some(true), host.gpu@);
    let x3 = asked_unless(false, host.shm@);
    let x4 = asked_unless(config.no_docker == Some(true), host.docker@);
    let x5 = asked_unless(config.no_display == Some(true), host.display@);
    let x6 = asked_unless(false, host.home_dotfiles@);
    let x7 = asked_unless(false, host.config_hide@);
    let x8 = asked_unless(false, host.cache_hide@);
    let x9 = asked_unless(false, host.local_overrides@);
    mounts_read(host.base@);
    switched_mounts_read(config.no_gpu, host.gpu@);
    mounts_read(host.shm@);
    switched_mounts_read(config.no_docker, host.docker@);
    switched_mounts_read(config.no_display, host.display@);
    mounts_read(host.home_dotfiles@);
    mounts_read(host.config_hide@);
    mounts_read(host.cache_hide@);
    mounts_read(host.local_overrides@);
    let w1 = mounts_words(host.base@);
    reads_joined(w1, x1, let_in_gpu, x2);
    let w2 = w1 + let_in_gpu;
    reads_joined(w2, x1 + x2, mounts_words(host.shm@), x3);
    let w3 = w2 + mounts_words(host.shm@);
    reads_joined(w3, x1 + x2 + x3, let_in_docker, x4);
    let w4 = w3 + let_in_docker;
    reads_joined(w4, x1 + x2 + x3 + x4, let_in_display, x5);
    let w5 = w4 + let_in_display;
    reads_joined(w5, x1 + x2 + x3 + x4 + x5, mounts_words(host.home_dotfiles@), x6);
    let w6 = w5 + mounts_words(host.home_dotfiles@);
    reads_joined(w6, x1 + x2 + x3 + x4 + x5 + x6, mounts_words(host.config_hide@), x7);
    let w7 = w6 + mounts_words(host.config_hide@);
    reads_joined(w7, x1 + x2 + x3 + x4 + x5 + x6 + x7, mounts_words(host.cache_hide@), x8);
    let w8 = w7 + mounts_words(host.cache_hide@);
    reads_joined(
        w8,
        x1 + x2 + x3 + x4 + x5 + x6 + x7 + x8,
        mounts_words(host.local_overrides@),
        x9,
    );
    let w9 = w8 + mounts_words(host.local_overrides@);
    let host_part = host_settings(config, host);
    reveal_options();
    let rw = mapped("--bind"@, config.rw_maps@);
    let ro = mapped("--ro-bind"@, config.ro_maps@);
    maps_read("--bind"@, config.rw_maps@);
    reads_joined(w9, host_part, map_words("--bind"@, config.rw_maps@), rw);
    let w10 = w9 + map_words("--bind"@, config.rw_maps@);
    maps_read("--ro-bind"@, config.ro_maps@);
    reads_joined(w10, host_part + rw, map_words("--ro-bind"@, config.ro_maps@), ro);
    let w11 = w10 + map_words("--ro-bind"@, config.ro_maps@);
    let operands = seq![Word::Path(project_dir), Word::Path(project_dir)];
    let project = seq![Word::Text("--bind"@), Word::Path(project_dir), Word::Path(project_dir)];
    option_reads("--bind"@, operands);
    assert(seq![Word::Text("--bind"@)] + operands =~= project);
    reads_joined(
        w11,
        host_part + rw + ro,
        project,
        seq![Setting { option: "--bind"@, operands }],
    );
}

/// The words for the working directory and the isolation are read as that.
proof fn isolation_section_reads(project_dir: Seq<u8>)
    ensures
        reads(
            isolation_section(project_dir),
            seq![
                with_operand("--chdir"@, Word::Path(project_dir)),
                alone("--die-with-parent"@),
                alone("--unshare-pid"@),
                alone("--unshare-uts"@),
                alone("--unshare-ipc"@),
                with_operand("--hostname"@, Word::Text("ai-sandbox"@)),
            ],
        ),
{
    reveal_options();
    let none = Seq::<Word>::empty();
    let c = with_operand("--chdir"@, Word::Path(project_dir));
    let h = with_operand("--hostname"@, Word::Text("ai-sandbox"@));
    option_reads(c.option, c.operands);
    option_reads("--die-with-parent"@, none);
    option_reads("--unshare-pid"@, none);
    option_reads("--unshare-uts"@, none);
    option_reads("--unshare-ipc"@, none);
    option_reads(h.option, h.operands);
    let w1 = seq![Word::Text("--chdir"@)] + c.operands;
    let w2 = seq![Word::Text("--die-with-parent"@)] + none;
    let w3 = seq![Word::Text("--unshare-pid"@)] + none;
    let w4 = seq![Word::Text("--unshare-uts"@)] + none;
    let w5 = seq![Word::Text("--unshare-ipc"@)] + none;
    let w6 = seq![Word::Text("--hostname"@)] + h.operands;
    let x2 = seq![alone("--die-with-parent"@)];
    let x3 = seq![alone("--unshare-pid"@)];
    let x4 = seq![alone("--unshare-uts"@)];
    let x5 = seq![alone("--unshare-ipc"@)];
    reads_joined(w1, seq![c], w2, x2);
    reads_joined(w1 + w2, seq![c] + x2, w3, x3);
    reads_joined(w1 + w2 + w3, seq![c] + x2 + x3, w4, x4);
    reads_joined(w1 + w2 + w3 + w4, seq![c] + x2 + x3 + x4, w5, x5);
    reads_joined(w1 + w2 + w3 + w4 + w5, seq![c] + x2 + x3 + x4 + x5, w6, seq![h]);
    assert(isolation_section(project_dir) =~= w1 + w2 + w3 + w4 + w5 + w6);
    assert(seq![c] + x2 + x3 + x4 + x5 + seq![h] =~= seq![
        c,
        alone("--die-with-parent"@),
        alone("--unshare-pid"@),
        alone("--unshare-uts"@),
        alone("--unshare-ipc"@),
        h,
    ]);
}

/// The words for the standard variables are read as that.
proof fn standard_env_reads()
    ensures
        reads(
            standard_env_section(),
            seq![variable("PS1"@, "(jail) \\w \\$ "@), variable("_ZO_DOCTOR"@, "0"@)],
        ),
{
    reveal_options();
    let p = variable("PS1"@, "(jail) \\w \\$ "@);
    let z = variable("_ZO_DOCTOR"@, "0"@);
    option_reads(p.option, p.operands);
    option_reads(z.option, z.operands);
    let w1 = seq![Word::Text("--setenv"@)] + p.operands;
    let w2 = seq![Word::Text("--setenv"@)] + z.operands;
    reads_joined(w1, seq![p], w2, seq![z]);
    assert(standard_env_section() =~= w1 + w2);
    assert(seq![p] + seq![z] =~= seq![p, z]);
}

/// What `bwrap` carries out, and in which order: later mounts cover earlier ones, so the
/// mounts of the host come first, each part that is switched off left out, then the paths
/// that the user adds, writable ones before readable ones, then the project. After that
/// come the working directory, the isolation, the variables of the display, those of
/// every jail, and the shell with the command. There is nothing else.
pub proof fn bwrap_carries_out(
    config: Config,
    project_dir: Seq<u8>,
    host: HostMounts,
    mise: Option<Vec<u8>>,
)
    ensures
        bwrap_words(config, project_dir, host, mise).len() > 0,
        bwrap_words(config, project_dir, host, mise)[0] == Word::Text("bwrap"@),
        settings_of(bwrap_words(config, project_dir, host, mise).skip(1)) == (
            asked_unless(false, host.base@) + asked_unless(
                config.no_gpu == Some(true),
                host.gpu@,
            ) + asked_unless(false, host.shm@) + asked_unless(
                config.no_docker == Some(true),
                host.docker@,
            ) + asked_unless(config.no_display == Some(true), host.display@) + asked_unless(
                false,
                host.home_dotfiles@,
            ) + asked_unless(false, host.config_hide@) + asked_unless(false, host.cache_hide@)
                + asked_unless(false, host.local_overrides@) + mapped(
                "--bind"@,
                config.rw_maps@,
            ) + mapped(
                "--ro-bind"@,
                config.ro_maps@,
            ) + seq![
                Setting {
                    option: "--bind"@,
                    operands: seq![Word::Path(project_dir), Word::Path(project_dir)],
                },
            ] + seq![
                with_operand("--chdir"@, Word::Path(project_dir)),
                alone("--die-with-parent"@),
                alone("--unshare-pid"@),
                alone("--unshare-uts"@),
                alone("--unshare-ipc"@),
                with_operand("--hostname"@, Word::Text("ai-sandbox"@)),
            ] + (if config.no_display == Some(true) {
                Seq::empty()
            } else {
                set(host.display_env@)
            }) + seq![variable("PS1"@, "(jail) \\w \\$ "@), variable("_ZO_DOCTOR"@, "0"@)],
            seq![Word::Text("bash"@), Word::Text("-c"@), Word::Text(shell_command(config, mise))],
        ),
{
    let mounts = mount_section(config, project_dir, host);
    let isolation = isolation_section(project_dir);
    let display = crate::mounts::let_in(config.no_display, host.display_env@);
    let command = command_section(shell_command(config, mise));
    let x1 = host_settings(config, host) + mapped("--bind"@, config.rw_maps@) + mapped(
        "--ro-bind"@,
        config.ro_maps@,
    ) + seq![
        Setting {
            option: "--bind"@,
            operands: seq![Word::Path(project_dir), Word::Path(project_dir)],
        },
    ];
    let x2 = seq![
        with_operand("--chdir"@, Word::Path(project_dir)),
        alone("--die-with-parent"@),
        alone("--unshare-pid"@),
        alone("--unshare-uts"@),
        alone("--unshare-ipc"@),
        with_operand("--hostname"@, Word::Text("ai-sandbox"@)),
    ];
    let x3 = if config.no_display == Some(true) {
        Seq::empty()
    } else {
        set(host.display_env@)
    };
    let x4 = seq![variable("PS1"@, "(jail) \\w \\$ "@), variable("_ZO_DOCTOR"@, "0"@)];
    mount_section_reads(config, project_dir, host);
    isolation_section_reads(project_dir);
    env_reads(display);
    assert(set(display) =~= x3);
    standard_env_reads();
    reads_joined(mounts, x1, isolation, x2);
    reads_joined(mounts + isolation, x1 + x2, env_words(display), x3);
    reads_joined(
        mounts + isolation + env_words(display),
        x1 + x2 + x3,
        standard_env_section(),
        x4,
    );
    let all = mounts + isolation + env_words(display) + standard_env_section();
    let argv = bwrap_words(config, project_dir, host, mise);
    assert(argv.skip(1) =~= all + command);
    assert(settings_of(all + command) == (x1 + x2 + x3 + x4 + settings_of(command).0, settings_of(
        command,
    ).1));
    reveal_options();
    assert(settings_of(command) == (Seq::<Setting>::empty(), command));
    assert(x1 + x2 + x3 + x4 + Seq::<Setting>::empty() =~= x1 + x2 + x3 + x4);
}

/// What `bwrap` carries out for mounts is what they ask, one after the other.
pub proof fn mounts_are_carried_out_in_order(mounts: Seq<Mount>)
    ensures
        settings_of(mounts_words(mounts)) == (
            Seq::new(mounts.len(), |i: int| asked(mounts[i])),
            Seq::<Word>::empty(),
        ),
{
    mounts_read(mounts);
    let none = Seq::<Word>::empty();
    assert(mounts_words(mounts) + none =~= mounts_words(mounts));
    assert(settings_of(mounts_words(mounts) + none) == (asked_unless(false, mounts)
        + settings_of(none).0, settings_of(none).1));
    assert(asked_unless(false, mounts) + Seq::<Setting>::empty() =~= asked_unless(false, mounts));
}

/// Whether a setting mounts something.
pub open spec fn is_mount(setting: Setting) -> bool {
    setting.option == "--ro-bind"@ || setting.option == "--bind"@ || setting.option
        == "--dev-bind"@ || setting.option == "--symlink"@ || setting.option == "--dev"@
        || setting.option == "--proc"@ || setting.option == "--tmpfs"@
}

/// Whether a setting mounts a path, where it stands on the host, with one of the options
/// for binding.
pub open spec fn maps_path(setting: Setting, path: Seq<u8>) -> bool {
    (setting.option == "--bind"@ || setting.option == "--ro-bind"@) && setting.operands == seq![
        Word::Path(path),
        Word::Path(path),
    ]
}

/// Whether a setting maps a path that the user adds, or the project.
pub open spec fn is_of_the_user(setting: Setting, config: Config, project_dir: Seq<u8>) -> bool {
    ||| maps_path(setting, project_dir)
    ||| exists|k: int|
        0 <= k < config.rw_maps@.len() && maps_path(setting, #[trigger] config.rw_maps@[k]@)
    ||| exists|k: int|
        0 <= k < config.ro_maps@.len() && maps_path(setting, #[trigger] config.ro_maps@[k]@)
}

/// No mount of the host covers what the user adds: each added path is mapped, as the user
/// asked, at a place after which nothing is mounted but paths that the user adds and the
/// project.
pub proof fn nothing_of_the_host_covers_an_added_path(
    config: Config,
    project_dir: Seq<u8>,
    host: HostMounts,
    mise: Option<Vec<u8>>,
)
    ensures
        ({
            let settings = settings_of(bwrap_words(config, project_dir, host, mise).skip(1)).0;
            let first = asked_unless(false, host.base@).len() + asked_unless(
                config.no_gpu == Some(true),
                host.gpu@,
            ).len() + asked_unless(false, host.shm@).len() + asked_unless(
                config.no_docker == Some(true),
                host.docker@,
            ).len() + asked_unless(config.no_display == Some(true), host.display@).len()
                + asked_unless(false, host.home_dotfiles@).len() + asked_unless(
                false,
                host.config_hide@,
            ).len() + asked_unless(false, host.cache_hide@).len() + asked_unless(
                false,
                host.local_overrides@,
            ).len();
            let rw = config.rw_maps@.len() as int;
            let ro = config.ro_maps@.len() as int;
            &&& forall|i: int|
                0 <= i < rw ==> first + i < settings.len() && (
                #[trigger] settings[first + i]).option == "--bind"@ && settings[first + i].operands == seq![
                    Word::Path(config.rw_maps@[i]@),
                    Word::Path(config.rw_maps@[i]@),
                ]
            &&& forall|i: int|
                0 <= i < ro ==> first + rw + i < settings.len() && (
                #[trigger] settings[first + rw + i]).option == "--ro-bind"@ && settings[first + rw + i].operands == seq![
                    Word::Path(config.ro_maps@[i]@),
                    Word::Path(config.ro_maps@[i]@),
                ]
            &&& forall|k: int|
                first <= k < settings.len() && is_mount(#[trigger] settings[k]) ==> is_of_the_user(
                    settings[k],
                    config,
                    project_dir,
                )
        }),
{
    bwrap_carries_out(config, project_dir, host, mise);
    options_are_no_mounts();
    let settings = settings_of(bwrap_words(config, project_dir, host, mise).skip(1)).0;
    let first = host_settings(config, host).len() as int;
    let rw = config.rw_maps@.len() as int;
    let ro = config.ro_maps@.len() as int;
    let env = if config.no_display == Some(true) {
        Seq::empty()
    } else {
        set(host.display_env@)
    };
    assert forall|k: int|
        first <= k < settings.len() && is_mount(
            #[trigger] settings[k],
        ) implies is_of_the_user(settings[k], config, project_dir) by {
        if k < first + rw {
            assert(settings[k] == mapped("--bind"@, config.rw_maps@)[k - first]);
            assert(maps_path(settings[k], config.rw_maps@[k - first]@));
        } else if k < first + rw + ro {
            assert(settings[k] == mapped("--ro-bind"@, config.ro_maps@)[k - first - rw]);
            assert(maps_path(settings[k], config.ro_maps@[k - first - rw]@));
        } else if k == first + rw + ro {
            assert(maps_path(settings[k], project_dir));
        } else if k < first + rw + ro + 7 {
            assert(settings[k].option == "--chdir"@ || settings[k].option == "--die-with-parent"@
                || settings[k].option == "--unshare-pid"@ || settings[k].option
                == "--unshare-uts"@ || settings[k].option == "--unshare-ipc"@
                || settings[k].option == "--hostname"@);
        } else if k < first + rw + ro + 7 + env.len() {
            assert(settings[k] == env[k - first - rw - ro - 7]);
        } else {
            assert(settings[k].option == "--setenv"@);
        }
    }
    assert forall|i: int| 0 <= i < rw implies first + i < settings.len() && (
    #[trigger] settings[first + i]).option == "--bind"@ && settings[first + i].operands == seq![
        Word::Path(config.rw_maps@[i]@),
        Word::Path(config.rw_maps@[i]@),
    ] by {
        assert(settings[first + i] == mapped("--bind"@, config.rw_maps@)[i]);
    }
    assert forall|i: int| 0 <= i < ro implies first + rw + i < settings.len() && (
    #[trigger] settings[first + rw + i]).option == "--ro-bind"@ && settings[first + rw + i].operands
        == seq![Word::Path(config.ro_maps@[i]@), Word::Path(config.ro_maps@[i]@)] by {
        assert(settings[first + rw + i] == mapped("--ro-bind"@, config.ro_maps@)[i]);
    }
}

/// The options for the working directory, the isolation and the variables mount nothing.
proof fn options_are_no_mounts()
    ensures
        forall|s: Setting| #[trigger]
            is_mount(s) ==> s.option != "--chdir"@ && s.option != "--die-with-parent"@ && s.option
                != "--unshare-pid"@ && s.option != "--unshare-uts"@ && s.option
                != "--unshare-ipc"@ && s.option != "--hostname"@ && s.option != "--setenv"@,
{
    reveal_options();
    reveal_strlit("--chdir");
    reveal_strlit("--hostname");
    reveal_strlit("--setenv");
    reveal_strlit("--dev");
    reveal_strlit("--proc");
    reveal_strlit("--tmpfs");
    reveal_strlit("--ro-bind");
    reveal_strlit("--bind");
    reveal_strlit("--dev-bind");
    reveal_strlit("--symlink");
    assert("--chdir"@[2] == 'c');
    assert("--tmpfs"@[2] == 't');
    assert("--hostname"@[2] == 'h');
    assert("--dev-bind"@[2] == 'd');
    assert("--setenv"@[3] == 'e');
    assert("--proc"@[2] == 'p');
    assert("--symlink"@[3] == 'y');
    assert("--dev-bind"@[3] == 'e');
}

} // verus!
