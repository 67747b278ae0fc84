//! The jail on macOS: the profile and the command line of `sandbox-exec`.
use vstd::prelude::*;

use crate::config::{is_set, Config};
use crate::path::{copy_bytes, display, path_display};
use crate::shell::{build_shell_command, shell_command};
use crate::text::{
    holds, holds_in_first, holds_in_second, holds_itself, lines_of, push_text, split_lines, texts,
};

verus! {

/// The complaint about a missing `sandbox-exec`.
pub open spec fn sandbox_exec_missing() -> Seq<char> {
    "sandbox-exec not found at /usr/bin/sandbox-exec. This tool is required for sandboxing on macOS."@
}

/// Whether `sandbox-exec` can be used, given whether its file is there, and what to
/// tell the user where it cannot.
pub fn check_sandbox_exec(is_file: bool) -> (checked: Result<(), String>)
    ensures
        match checked {
            Ok(_) => is_file,
            Err(complaint) => !is_file && complaint@ == sandbox_exec_missing(),
        },
        !is_file ==> (checked matches Err(complaint) && complaint@
            == "sandbox-exec not found at /usr/bin/sandbox-exec. This tool is required for sandboxing on macOS."@),
{
    if is_file {
        Ok(())
    } else {
        Err(
            "sandbox-exec not found at /usr/bin/sandbox-exec. This tool is required for sandboxing on macOS.".to_owned(),
        )
    }
}

/// A path, resolved where it can be, and what the file system says of it.
#[derive(Debug)]
pub struct ProbedPath {
    pub path: Vec<u8>,
    pub is_dir: bool,
    pub exists: bool,
}

/// What a jail may see and change of the host.
pub struct HostPaths {
    /// The paths that the jail may not read.
    pub deny: Vec<ProbedPath>,
    /// The paths that the jail may write.
    pub writable: Vec<ProbedPath>,
    /// The socket of the Docker daemon, resolved where it can be, if it was found.
    pub docker_socket: Option<Vec<u8>>,
}

/// A rule on everything below `path`, or on `path` alone.
pub open spec fn path_rule(verb: Seq<char>, below: bool, path: Seq<u8>) -> Seq<char> {
    verb + (if below {
        " (subpath \""@
    } else {
        " (literal \""@
    }) + display(path) + "\"))\n"@
}

/// The rule that keeps the jail from reading a path.
pub open spec fn deny_rule(probed: ProbedPath) -> Seq<char> {
    path_rule("(deny file-read*"@, probed.is_dir, probed.path@)
}

/// The rule that lets the jail write a path. A path that does not exist may become a
/// directory.
pub open spec fn write_rule(probed: ProbedPath) -> Seq<char> {
    path_rule("(allow file-write*"@, probed.is_dir || !probed.exists, probed.path@)
}

/// The rules that keep the jail from reading the paths.
pub open spec fn deny_rules(paths: Seq<ProbedPath>) -> Seq<char>
    decreases paths.len(),
{
    if paths.len() == 0 {
        Seq::empty()
    } else {
        deny_rules(paths.drop_last()) + deny_rule(paths.last())
    }
}

/// The rules that let the jail write the paths.
pub open spec fn write_rules(paths: Seq<ProbedPath>) -> Seq<char>
    decreases paths.len(),
{
    if paths.len() == 0 {
        Seq::empty()
    } else {
        write_rules(paths.drop_last()) + write_rule(paths.last())
    }
}

/// What is denied where no rule allows it: everything.
pub open spec fn default_section() -> Seq<char> {
    "(version 1)\n(deny default)\n\n"@
}

/// What the processes of the jail may do.
pub open spec fn process_section() -> Seq<char> {
    "; Process operations\n(allow process-exec)\n(allow process-fork)\n(allow signal)\n(allow sysctl-read)\n\n"@
}

/// How the processes of the jail may talk to each other and to services.
pub open spec fn ipc_section() -> Seq<char> {
    "; IPC and Mach\n(allow mach-lookup)\n(allow mach-register)\n(allow ipc-posix-shm-read-data)\n(allow ipc-posix-shm-write-data)\n(allow ipc-posix-shm-read-metadata)\n(allow ipc-posix-shm-write-create)\n\n"@
}

/// That the jail may use terminals.
pub open spec fn terminal_section() -> Seq<char> {
    "; Pseudo-terminal\n(allow pseudo-tty)\n\n"@
}

/// That the jail may use the network.
pub open spec fn network_section() -> Seq<char> {
    "; Network\n(allow network-outbound)\n(allow network-inbound)\n(allow network-bind)\n(allow system-socket)\n\n"@
}

/// What the jail may read: all but the paths that are denied.
pub open spec fn read_section(deny: Seq<ProbedPath>) -> Seq<char> {
    "; File reads: allow globally, deny sensitive paths\n(allow file-read*)\n"@ + deny_rules(deny)
        + "\n"@
}

/// What the jail may write: the given paths.
pub open spec fn write_section(writable: Seq<ProbedPath>) -> Seq<char> {
    "; File writes: allow specific paths\n"@ + write_rules(writable) + "\n"@
}

/// That the jail may talk to the Docker daemon, where that is let in and there is
/// one.
pub open spec fn docker_section(enable_docker: bool, socket: Option<Vec<u8>>) -> Seq<char> {
    match socket {
        Some(path) if enable_docker => "; Docker socket\n"@ + path_rule(
            "(allow file-write*"@,
            false,
            path@,
        ) + "\n"@,
        _ => Seq::empty(),
    }
}

/// The profile of a jail.
pub open spec fn profile_text(host: HostPaths, enable_docker: bool) -> Seq<char> {
    default_section() + process_section() + ipc_section() + terminal_section() + network_section()
        + read_section(host.deny@) + write_section(host.writable@) + docker_section(
        enable_docker,
        host.docker_socket,
    )
}

/// Appends a rule on everything below `path`, or on `path` alone.
fn add_path_rule(profile: &mut String, verb: &str, below: bool, path: &[u8])
    ensures
        final(profile)@ == old(profile)@ + path_rule(verb@, below, path@),
{
    let ghost before = profile@;
    profile.append(verb);
    if below {
        profile.append(" (subpath \"");
    } else {
        profile.append(" (literal \"");
    }
    let shown = path_display(path);
    profile.append(shown.as_str());
    profile.append("\"))\n");
    assert(profile@ =~= before + path_rule(verb@, below, path@));
}

/// Appends the rules that keep the jail from reading the paths.
fn add_deny_rules(profile: &mut String, paths: &[ProbedPath])
    ensures
        final(profile)@ == old(profile)@ + deny_rules(paths@),
{
    let ghost before = profile@;
    let mut i: usize = 0;
    assert(before + deny_rules(paths@.take(0)) =~= before);
    while i < paths.len()
        invariant
            i <= paths.len(),
            profile@ == before + deny_rules(paths@.take(i as int)),
        decreases paths.len() - i,
    {
        let probed = &paths[i];
        add_path_rule(profile, "(deny file-read*", probed.is_dir, probed.path.as_slice());
        assert(paths@.take(i + 1).drop_last() =~= paths@.take(i as int));
        assert(paths@.take(i + 1).last() == paths@[i as int]);
        assert(profile@ =~= before + deny_rules(paths@.take(i + 1)));
        i = i + 1;
    }
    assert(paths@.take(i as int) =~= paths@);
}

/// Appends the rules that let the jail write the paths.
fn add_write_rules(profile: &mut String, paths: &[ProbedPath])
    ensures
        final(profile)@ == old(profile)@ + write_rules(paths@),
{
    let ghost before = profile@;
    let mut i: usize = 0;
    assert(before + write_rules(paths@.take(0)) =~= before);
    while i < paths.len()
        invariant
            i <= paths.len(),
            profile@ == before + write_rules(paths@.take(i as int)),
        decreases paths.len() - i,
    {
        let probed = &paths[i];
        add_path_rule(
            profile,
            "(allow file-write*",
            probed.is_dir || !probed.exists,
            probed.path.as_slice(),
        );
        assert(paths@.take(i + 1).drop_last() =~= paths@.take(i as int));
        assert(paths@.take(i + 1).last() == paths@[i as int]);
        assert(profile@ =~= before + write_rules(paths@.take(i + 1)));
        i = i + 1;
    }
    assert(paths@.take(i as int) =~= paths@);
}

/// The profile of a jail that may see and change what `host` says.
pub fn generate_sbpl_profile(host: &HostPaths, enable_docker: bool) -> (profile: String)
    ensures
        profile@ == profile_text(*host, enable_docker),
{
    let mut profile = String::new();
    profile.append("(version 1)\n(deny default)\n\n");
    profile.append(
        "; Process operations\n(allow process-exec)\n(allow process-fork)\n(allow signal)\n(allow sysctl-read)\n\n",
    );
    profile.append(
        "; IPC and Mach\n(allow mach-lookup)\n(allow mach-register)\n(allow ipc-posix-shm-read-data)\n(allow ipc-posix-shm-write-data)\n(allow ipc-posix-shm-read-metadata)\n(allow ipc-posix-shm-write-create)\n\n",
    );
    profile.append("; Pseudo-terminal\n(allow pseudo-tty)\n\n");
    profile.append(
        "; Network\n(allow network-outbound)\n(allow network-inbound)\n(allow network-bind)\n(allow system-socket)\n\n",
    );
    profile.append("; File reads: allow globally, deny sensitive paths\n(allow file-read*)\n");
    add_deny_rules(&mut profile, host.deny.as_slice());
    profile.append("\n");
    profile.append("; File writes: allow specific paths\n");
    add_write_rules(&mut profile, host.writable.as_slice());
    profile.append("\n");
    if enable_docker {
        if let Some(socket) = &host.docker_socket {
            profile.append("; Docker socket\n");
            add_path_rule(&mut profile, "(allow file-write*", false, socket.as_slice());
            profile.append("\n");
        }
    }
    assert(profile@ =~= profile_text(*host, enable_docker));
    profile
}

/// A program to start, with its arguments, its working directory and the variables
/// that are added to its environment.
#[derive(Debug)]
pub struct Invocation {
    pub program: String,
    pub args: Vec<String>,
    pub current_dir: Vec<u8>,
    pub env: Vec<(String, String)>,
}

/// The contents of a list of variables.
pub open spec fn variables(env: Seq<(String, String)>) -> Seq<(Seq<char>, Seq<char>)> {
    env.map_values(|variable: (String, String)| (variable.0@, variable.1@))
}

/// The command that starts a jail in `project_dir`.
pub fn build_sandbox_exec(
    config: &Config,
    project_dir: &[u8],
    host: &HostPaths,
    mise: &Option<Vec<u8>>,
) -> (invocation: Invocation)
    ensures
        invocation.program@ == "/usr/bin/sandbox-exec"@,
        texts(invocation.args@) == seq![
            "-p"@,
            profile_text(*host, config.no_docker != Some(true)),
            "bash"@,
            "-c"@,
            shell_command(*config, *mise),
        ],
        invocation.current_dir@ == project_dir@,
        variables(invocation.env@) == seq![("PS1"@, "(jail) \\w \\$ "@), ("_ZO_DOCTOR"@, "0"@)],
        invocation.env@.len() == 2,
        invocation.env@[0].0@ == "PS1"@ && invocation.env@[0].1@ == "(jail) \\w \\$ "@,
        invocation.env@[1].0@ == "_ZO_DOCTOR"@ && invocation.env@[1].1@ == "0"@,
{
    let profile = generate_sbpl_profile(host, !is_set(config.no_docker));
    let command = build_shell_command(config, mise);
    let mut args: Vec<String> = Vec::new();
    push_text(&mut args, "-p");
    push_text(&mut args, profile.as_str());
    push_text(&mut args, "bash");
    push_text(&mut args, "-c");
    push_text(&mut args, command.as_str());
    let mut env: Vec<(String, String)> = Vec::new();
    env.push(("PS1".to_owned(), "(jail) \\w \\$ ".to_owned()));
    env.push(("_ZO_DOCTOR".to_owned(), "0".to_owned()));
    assert(variables(env@) =~= seq![("PS1"@, "(jail) \\w \\$ "@), ("_ZO_DOCTOR"@, "0"@)]);
    assert(texts(args@) =~= seq![
        "-p"@,
        profile_text(*host, config.no_docker != Some(true)),
        "bash"@,
        "-c"@,
        shell_command(*config, *mise),
    ]);
    Invocation {
        program: "/usr/bin/sandbox-exec".to_owned(),
        args,
        current_dir: copy_bytes(project_dir),
        env,
    }
}

/// The command that would start a jail, with a place holder for the profile, and the
/// profile.
pub fn build_sandbox_exec_dry_run(
    config: &Config,
    host: &HostPaths,
    mise: &Option<Vec<u8>>,
) -> (shown: (String, String))
    ensures
        shown.0@ == "sandbox-exec -p '<profile>' bash -c '"@ + shell_command(*config, *mise)
            + "'"@,
        shown.1@ == profile_text(*host, config.no_docker != Some(true)),
{
    let profile = generate_sbpl_profile(host, !is_set(config.no_docker));
    let command = build_shell_command(config, mise);
    let mut line = "sandbox-exec -p '<profile>' bash -c '".to_owned();
    line.append(command.as_str());
    line.append("'");
    (line, profile)
}

/// What a dry run prints.
pub fn format_dry_run_macos(command_line: &str, profile: &str) -> (out: String)
    ensures
        out@ == "# sandbox-exec command:\n"@ + command_line@ + "\n"@ + "\n# SBPL profile:\n"@
            + profile@,
{
    let mut out = "# sandbox-exec command:\n".to_owned();
    out.append(command_line);
    out.append("\n");
    out.append("\n# SBPL profile:\n");
    out.append(profile);
    out
}

/// The messages that show a profile: a title, then each line, indented.
pub open spec fn profile_report(profile: Seq<char>) -> Seq<Seq<char>> {
    seq!["SBPL profile:"@] + lines_of(profile).map_values(|line: Seq<char>| "  "@ + line)
}

/// The messages that show `profile` to a user who wants to know more.
pub fn profile_messages(profile: &str) -> (messages: Vec<String>)
    ensures
        texts(messages@) == profile_report(profile@),
        messages@.len() == lines_of(profile@).len() + 1,
        messages@[0]@ == "SBPL profile:"@,
        forall|i: int|
            0 <= i < lines_of(profile@).len() ==> messages@[i + 1]@ == "  "@ + #[trigger] lines_of(
                profile@,
            )[i],
{
    let lines = split_lines(profile);
    let mut messages: Vec<String> = Vec::new();
    push_text(&mut messages, "SBPL profile:");
    let ghost report = profile_report(profile@);
    assert(texts(messages@) =~= report.take(1));
    let mut i: usize = 0;
    while i < lines.len()
        invariant
            report == profile_report(profile@),
            texts(lines@) == lines_of(profile@),
            i <= lines.len(),
            texts(messages@) == report.take(i + 1),
        decreases lines.len() - i,
    {
        let mut message = "  ".to_owned();
        message.append(lines[i].as_str());
        assert(lines_of(profile@)[i as int] == lines@[i as int]@);
        assert(report[i + 1] == message@);
        push_text(&mut messages, message.as_str());
        assert(texts(messages@) =~= report.take(i + 2));
        i = i + 1;
    }
    assert(report.take(i + 1) =~= report);
    assert(texts(messages@)[0] == messages@[0]@);
    assert forall|k: int| 0 <= k < lines_of(profile@).len() implies messages@[k + 1]@ == "  "@
        + #[trigger] lines_of(profile@)[k] by {
        assert(texts(messages@)[k + 1] == messages@[k + 1]@);
    }
    messages
}

/// Every profile begins by denying whatever no rule allows.
pub proof fn profile_denies_by_default(host: HostPaths, enable_docker: bool)
    ensures
        profile_text(host, enable_docker).take(default_section().len() as int)
            == default_section(),
{
    assert(profile_text(host, enable_docker).take(default_section().len() as int)
        =~= default_section());
}

/// What stands in the sections on the network, on reading or on writing stands in the
/// profile.
proof fn section_is_in_profile(host: HostPaths, enable_docker: bool, part: Seq<char>)
    requires
        holds(network_section(), part) || holds(read_section(host.deny@), part) || holds(
            write_section(host.writable@),
            part,
        ),
    ensures
        holds(profile_text(host, enable_docker), part),
{
    let start = default_section() + process_section() + ipc_section() + terminal_section();
    let network = network_section();
    let read = read_section(host.deny@);
    let write = write_section(host.writable@);
    let docker = docker_section(enable_docker, host.docker_socket);
    if holds(network, part) {
        holds_in_second(start, network, part);
        holds_in_first(start + network, read, part);
        holds_in_first(start + network + read, write, part);
    } else if holds(read, part) {
        holds_in_second(start + network, read, part);
        holds_in_first(start + network + read, write, part);
    } else {
        holds_in_second(start + network + read, write, part);
    }
    holds_in_first(start + network + read + write, docker, part);
}

/// Every profile lets the jail use the network.
pub proof fn profile_allows_network(host: HostPaths, enable_docker: bool)
    ensures
        holds(profile_text(host, enable_docker), network_section()),
{
    holds_itself(network_section());
    section_is_in_profile(host, enable_docker, network_section());
}

/// Among the rules on reading stands that for each path.
proof fn deny_rules_hold_each(paths: Seq<ProbedPath>, i: int)
    requires
        0 <= i < paths.len(),
    ensures
        holds(deny_rules(paths), deny_rule(paths[i])),
    decreases paths.len(),
{
    let most = deny_rules(paths.drop_last());
    if i == paths.len() - 1 {
        holds_itself(deny_rule(paths.last()));
        holds_in_second(most, deny_rule(paths.last()), deny_rule(paths.last()));
    } else {
        deny_rules_hold_each(paths.drop_last(), i);
        holds_in_first(most, deny_rule(paths.last()), deny_rule(paths[i]));
    }
}

/// Among the rules on writing stands that for each path.
proof fn write_rules_hold_each(paths: Seq<ProbedPath>, i: int)
    requires
        0 <= i < paths.len(),
    ensures
        holds(write_rules(paths), write_rule(paths[i])),
    decreases paths.len(),
{
    let most = write_rules(paths.drop_last());
    if i == paths.len() - 1 {
        holds_itself(write_rule(paths.last()));
        holds_in_second(most, write_rule(paths.last()), write_rule(paths.last()));
    } else {
        write_rules_hold_each(paths.drop_last(), i);
        holds_in_first(most, write_rule(paths.last()), write_rule(paths[i]));
    }
}

/// Every path that is to be denied has its rule in the profile.
pub proof fn profile_denies_each_path(host: HostPaths, enable_docker: bool, i: int)
    requires
        0 <= i < host.deny@.len(),
    ensures
        holds(profile_text(host, enable_docker), deny_rule(host.deny@[i])),
{
    let rule = deny_rule(host.deny@[i]);
    let title =
        "; File reads: allow globally, deny sensitive paths\n(allow file-read*)\n"@;
    deny_rules_hold_each(host.deny@, i);
    holds_in_second(title, deny_rules(host.deny@), rule);
    holds_in_first(title + deny_rules(host.deny@), "\n"@, rule);
    section_is_in_profile(host, enable_docker, rule);
}

/// Every path that is to be writable has its rule in the profile.
pub proof fn profile_allows_each_writable_path(host: HostPaths, enable_docker: bool, i: int)
    requires
        0 <= i < host.writable@.len(),
    ensures
        holds(profile_text(host, enable_docker), write_rule(host.writable@[i])),
{
    let rule = write_rule(host.writable@[i]);
    let title = "; File writes: allow specific paths\n"@;
    write_rules_hold_each(host.writable@, i);
    holds_in_second(title, write_rules(host.writable@), rule);
    holds_in_first(title + write_rules(host.writable@), "\n"@, rule);
    section_is_in_profile(host, enable_docker, rule);
}

/// Where Docker is switched off, the profile is the same whatever Docker socket the
/// host has.
pub proof fn profile_keeps_docker_out(host: HostPaths, docker_socket: Option<Vec<u8>>)
    ensures
        profile_text(HostPaths { docker_socket, ..host }, false) == profile_text(host, false),
{
}

} // verus!
