//! What the profile of a macOS jail must satisfy.
use vstd::prelude::*;

use crate::path::display;
use crate::sbpl::{
    default_section, deny_rules, docker_section, ipc_section, network_section, path_rule,
    process_section, profile_text, terminal_section, write_rules, HostPaths, ProbedPath,
};
use crate::text::{
    is_free_of, pieces_of_both_sides, split_on, split_on_has_a_piece,
    text_is_split_at_each_separator,
};

verus! {

/// Everything that a profile says, in its order: the general rules are the same in every
/// profile, reading is allowed before the paths that may not be read are denied, and the
/// socket of Docker has a rule where it was found and is let in.
pub proof fn profile_says_this_and_nothing_else(host: HostPaths, enable_docker: bool)
    ensures
        profile_text(host, enable_docker) == "(version 1)\n(deny default)\n\n"@
            + "; Process operations\n(allow process-exec)\n(allow process-fork)\n(allow signal)\n(allow sysctl-read)\n\n"@
            + "; IPC and Mach\n(allow mach-lookup)\n(allow mach-register)\n(allow ipc-posix-shm-read-data)\n(allow ipc-posix-shm-write-data)\n(allow ipc-posix-shm-read-metadata)\n(allow ipc-posix-shm-write-create)\n\n"@
            + "; Pseudo-terminal\n(allow pseudo-tty)\n\n"@
            + "; Network\n(allow network-outbound)\n(allow network-inbound)\n(allow network-bind)\n(allow system-socket)\n\n"@
            + ("; File reads: allow globally, deny sensitive paths\n(allow file-read*)\n"@
            + deny_rules(host.deny@) + "\n"@) + ("; File writes: allow specific paths\n"@
            + write_rules(host.writable@) + "\n"@) + (match host.docker_socket {
            Some(socket) => if enable_docker {
                "; Docker socket\n"@ + ("(allow file-write*"@ + " (literal \""@ + display(socket@)
                    + "\"))\n"@) + "\n"@
            } else {
                Seq::empty()
            },
            None => Seq::empty(),
        }),
{
}

/// The rules on reading and on writing grow path by path: a rule on everything below a
/// directory, and on the path alone otherwise; for writing, a path that does not exist
/// counts as a directory.
pub proof fn rules_grow_path_by_path(paths: Seq<ProbedPath>, probed: ProbedPath)
    ensures
        deny_rules(Seq::empty()) == Seq::<char>::empty(),
        write_rules(Seq::empty()) == Seq::<char>::empty(),
        deny_rules(paths.push(probed)) == deny_rules(paths) + ("(deny file-read*"@ + (
        if probed.is_dir {
            " (subpath \""@
        } else {
            " (literal \""@
        }) + display(probed.path@) + "\"))\n"@),
        write_rules(paths.push(probed)) == write_rules(paths) + ("(allow file-write*"@ + (
        if probed.is_dir || !probed.exists {
            " (subpath \""@
        } else {
            " (literal \""@
        }) + display(probed.path@) + "\"))\n"@),
{
    assert(paths.push(probed).drop_last() =~= paths);
}

/// A rule on a path, as a line.
pub open spec fn rule_line(verb: Seq<char>, below: bool, path: Seq<char>) -> Seq<char> {
    verb + (if below {
        " (subpath \""@
    } else {
        " (literal \""@
    }) + path + "\"))"@
}

/// Whether a line is the rule that denies reading a path.
pub open spec fn denies_reading(line: Seq<char>, path: Seq<char>) -> bool {
    line == rule_line("(deny file-read*"@, true, path) || line == rule_line(
        "(deny file-read*"@,
        false,
        path,
    )
}

/// Whether a line is the rule that allows writing a path.
pub open spec fn allows_writing(line: Seq<char>, path: Seq<char>) -> bool {
    line == rule_line("(allow file-write*"@, true, path) || line == rule_line(
        "(allow file-write*"@,
        false,
        path,
    )
}

/// Whether the lines of a profile allow reading a path. The last rule on it decides: the
/// general one that allows reading, or its own that denies it; without any, it is denied.
pub open spec fn may_read(lines: Seq<Seq<char>>, path: Seq<char>) -> bool
    decreases lines.len(),
{
    if lines.len() == 0 {
        false
    } else if lines.last() == "(allow file-read*)"@ {
        true
    } else if denies_reading(lines.last(), path) {
        false
    } else {
        may_read(lines.drop_last(), path)
    }
}

/// Whether the lines of a profile allow writing a path: one of them says so.
pub open spec fn may_write(lines: Seq<Seq<char>>, path: Seq<char>) -> bool {
    exists|i: int| 0 <= i < lines.len() && allows_writing(#[trigger] lines[i], path)
}

/// Whether every path of the host is shown on one line.
pub open spec fn shows_on_one_line(host: HostPaths) -> bool {
    &&& forall|i: int|
        0 <= i < host.deny@.len() ==> is_free_of(display((#[trigger] host.deny@[i]).path@), '\n')
    &&& forall|i: int|
        0 <= i < host.writable@.len() ==> is_free_of(
            display((#[trigger] host.writable@[i]).path@),
            '\n',
        )
    &&& host.docker_socket matches Some(socket) ==> is_free_of(display(socket@), '\n')
}

/// What the literals of the rules hold.
proof fn reveal_rules()
    ensures
        "(deny file-read*"@.len() == 16,
        "(allow file-write*"@.len() == 18,
        "(allow file-read*)"@.len() == 18,
        " (subpath \""@.len() == 11,
        " (literal \""@.len() == 11,
        "\"))"@.len() == 3,
        "(deny file-read*"@[1] == 'd',
        "(allow file-write*"@[1] == 'a',
        "(allow file-read*)"@[1] == 'a',
        "(allow file-write*"@[12] == 'w',
        "(allow file-read*)"@[12] == 'r',
        " (subpath \""@[2] == 's',
        " (literal \""@[2] == 'l',
        "\"))\n"@ == "\"))"@ + seq!['\n'],
        "\n"@ == seq!['\n'],
        is_free_of("(deny file-read*"@, '\n'),
        is_free_of("(allow file-write*"@, '\n'),
        is_free_of("(allow file-read*)"@, '\n'),
        is_free_of(" (subpath \""@, '\n'),
        is_free_of(" (literal \""@, '\n'),
        is_free_of("\"))"@, '\n'),
{
    reveal_strlit("(deny file-read*");
    reveal_strlit("(allow file-write*");
    reveal_strlit("(allow file-read*)");
    reveal_strlit(" (subpath \"");
    reveal_strlit(" (literal \"");
    reveal_strlit("\"))");
    reveal_strlit("\"))\n");
    reveal_strlit("\n");
    assert("\"))\n"@ =~= "\"))"@ + seq!['\n']);
    assert("\n"@ =~= seq!['\n']);
}

/// Rules on different paths, or of different kinds, are different lines.
proof fn rules_are_told_apart(below: bool, path: Seq<char>, other: Seq<char>)
    ensures
        denies_reading(rule_line("(deny file-read*"@, below, path), other) <==> path == other,
        allows_writing(rule_line("(allow file-write*"@, below, path), other) <==> path == other,
        rule_line("(deny file-read*"@, below, path) != "(allow file-read*)"@,
        rule_line("(allow file-write*"@, below, path) != "(allow file-read*)"@,
        !denies_reading(rule_line("(allow file-write*"@, below, path), other),
        !allows_writing(rule_line("(deny file-read*"@, below, path), other),
{
    reveal_rules();
    let deny = rule_line("(deny file-read*"@, below, path);
    let allow = rule_line("(allow file-write*"@, below, path);
    assert(deny[1] == 'd');
    assert(allow[1] == 'a');
    assert(allow[12] == 'w');
    assert(rule_line("(deny file-read*"@, true, other)[1] == 'd');
    assert(rule_line("(deny file-read*"@, false, other)[1] == 'd');
    assert(rule_line("(allow file-write*"@, true, other)[1] == 'a');
    assert(rule_line("(allow file-write*"@, false, other)[1] == 'a');
    assert(deny.subrange(27, deny.len() - 3) =~= path);
    assert(allow.subrange(29, allow.len() - 3) =~= path);
    let d1 = rule_line("(deny file-read*"@, true, other);
    let d0 = rule_line("(deny file-read*"@, false, other);
    let a1 = rule_line("(allow file-write*"@, true, other);
    let a0 = rule_line("(allow file-write*"@, false, other);
    assert(d1.subrange(27, d1.len() - 3) =~= other);
    assert(d0.subrange(27, d0.len() - 3) =~= other);
    assert(a1.subrange(29, a1.len() - 3) =~= other);
    assert(a0.subrange(29, a0.len() - 3) =~= other);
}

/// A rule on a path that is shown on one line is one line.
proof fn rule_is_one_line(verb: Seq<char>, below: bool, path: Seq<u8>, rest: Seq<char>)
    requires
        verb == "(deny file-read*"@ || verb == "(allow file-write*"@,
        is_free_of(display(path), '\n'),
    ensures
        split_on(path_rule(verb, below, path) + rest, '\n') == seq![
            rule_line(verb, below, display(path)),
        ] + split_on(rest, '\n'),
{
    reveal_rules();
    let line = rule_line(verb, below, display(path));
    let kind = if below {
        " (subpath \""@
    } else {
        " (literal \""@
    };
    assert forall|i: int| 0 <= i < line.len() implies #[trigger] line[i] != '\n' by {
        if i < verb.len() {
            assert(line[i] == verb[i]);
        } else if i < verb.len() + 11 {
            assert(line[i] == kind[i - verb.len()]);
        } else if i < verb.len() + 11 + display(path).len() {
            assert(line[i] == display(path)[i - verb.len() - 11]);
        } else {
            assert(line[i] == "\"))"@[i - verb.len() - 11 - display(path).len()]);
        }
    }
    assert(path_rule(verb, below, path) + rest =~= line + seq!['\n'] + rest);
    text_is_split_at_each_separator(line, '\n', rest);
}

/// The line of the rule on reading a path.
spec fn deny_line(probed: ProbedPath) -> Seq<char> {
    rule_line("(deny file-read*"@, probed.is_dir, display(probed.path@))
}

/// The line of the rule on writing a path.
spec fn write_line(probed: ProbedPath) -> Seq<char> {
    rule_line("(allow file-write*"@, probed.is_dir || !probed.exists, display(probed.path@))
}

/// The rules on reading are a line for each path.
proof fn deny_rules_are_lines(paths: Seq<ProbedPath>, rest: Seq<char>)
    requires
        forall|i: int|
            0 <= i < paths.len() ==> is_free_of(display((#[trigger] paths[i]).path@), '\n'),
    ensures
        split_on(deny_rules(paths) + rest, '\n') == Seq::new(
            paths.len(),
            |i: int| deny_line(paths[i]),
        ) + split_on(rest, '\n'),
    decreases paths.len(),
{
    let lines = Seq::new(paths.len(), |i: int| deny_line(paths[i]));
    if paths.len() == 0 {
        assert(deny_rules(paths) + rest =~= rest);
        assert(lines + split_on(rest, '\n') =~= split_on(rest, '\n'));
    } else {
        let most = paths.drop_last();
        let last = paths[paths.len() - 1];
        let rule = path_rule("(deny file-read*"@, last.is_dir, last.path@);
        assert forall|i: int| 0 <= i < most.len() implies is_free_of(
            display((#[trigger] most[i]).path@),
            '\n',
        ) by {
            assert(most[i] == paths[i]);
        }
        deny_rules_are_lines(most, rule + rest);
        rule_is_one_line("(deny file-read*"@, last.is_dir, last.path@, rest);
        assert(deny_rules(paths) + rest =~= deny_rules(most) + (rule + rest));
        assert(Seq::new(most.len(), |i: int| deny_line(most[i])) + (seq![deny_line(last)]
            + split_on(rest, '\n')) =~= lines + split_on(rest, '\n'));
    }
}

/// The rules on writing are a line for each path.
proof fn write_rules_are_lines(paths: Seq<ProbedPath>, rest: Seq<char>)
    requires
        forall|i: int|
            0 <= i < paths.len() ==> is_free_of(display((#[trigger] paths[i]).path@), '\n'),
    ensures
        split_on(write_rules(paths) + rest, '\n') == Seq::new(
            paths.len(),
            |i: int| write_line(paths[i]),
        ) + split_on(rest, '\n'),
    decreases paths.len(),
{
    let lines = Seq::new(paths.len(), |i: int| write_line(paths[i]));
    if paths.len() == 0 {
        assert(write_rules(paths) + rest =~= rest);
        assert(lines + split_on(rest, '\n') =~= split_on(rest, '\n'));
    } else {
        let most = paths.drop_last();
        let last = paths[paths.len() - 1];
        let below = last.is_dir || !last.exists;
        let rule = path_rule("(allow file-write*"@, below, last.path@);
        assert forall|i: int| 0 <= i < most.len() implies is_free_of(
            display((#[trigger] most[i]).path@),
            '\n',
        ) by {
            assert(most[i] == paths[i]);
        }
        write_rules_are_lines(most, rule + rest);
        rule_is_one_line("(allow file-write*"@, below, last.path@, rest);
        assert(write_rules(paths) + rest =~= write_rules(most) + (rule + rest));
        assert(Seq::new(most.len(), |i: int| write_line(most[i])) + (seq![write_line(last)]
            + split_on(rest, '\n')) =~= lines + split_on(rest, '\n'));
    }
}

/// The lines before the rules on the paths of the host.
spec fn general_lines() -> Seq<Seq<char>> {
    split_on(
        default_section() + process_section() + ipc_section() + terminal_section()
            + network_section() + "; File reads: allow globally, deny sensitive paths"@,
        '\n',
    )
}

/// The lines after those of the rules on writing.
spec fn docker_lines(host: HostPaths, enable_docker: bool) -> Seq<Seq<char>> {
    match host.docker_socket {
        Some(socket) if enable_docker => seq![
            Seq::empty(),
            "; Docker socket"@,
            rule_line("(allow file-write*"@, false, display(socket@)),
            Seq::empty(),
            Seq::empty(),
        ],
        _ => seq![Seq::empty(), Seq::empty()],
    }
}

/// The lines of a profile.
spec fn profile_lines(host: HostPaths, enable_docker: bool) -> Seq<Seq<char>> {
    general_lines() + seq!["(allow file-read*)"@] + Seq::new(
        host.deny@.len(),
        |i: int| deny_line(host.deny@[i]),
    ) + seq![Seq::empty(), "; File writes: allow specific paths"@] + Seq::new(
        host.writable@.len(),
        |i: int| write_line(host.writable@[i]),
    ) + docker_lines(host, enable_docker)
}

/// What follows the rules on writing is read as its lines.
proof fn rest_is_lines(host: HostPaths, enable_docker: bool)
    requires
        shows_on_one_line(host),
    ensures
        split_on("\n"@ + docker_section(enable_docker, host.docker_socket), '\n') == docker_lines(
            host,
            enable_docker,
        ),
{
    reveal_rules();
    reveal_strlit("; Docker socket\n");
    reveal_strlit("; Docker socket");
    let empty = Seq::<char>::empty();
    let docker = docker_section(enable_docker, host.docker_socket);
    text_is_split_at_each_separator(empty, '\n', docker);
    assert("\n"@ + docker =~= empty + seq!['\n'] + docker);
    text_is_split_at_each_separator(empty, '\n', empty);
    match host.docker_socket {
        Some(socket) if enable_docker => {
            let title = "; Docker socket"@;
            let rule = path_rule("(allow file-write*"@, false, socket@);
            assert(docker =~= title + seq!['\n'] + (rule + "\n"@));
            text_is_split_at_each_separator(title, '\n', rule + "\n"@);
            rule_is_one_line("(allow file-write*"@, false, socket@, "\n"@);
            assert("\n"@ =~= empty + seq!['\n'] + empty);
            assert(split_on("\n"@ + docker, '\n') =~= docker_lines(host, enable_docker));
        },
        _ => {
            assert(docker =~= empty);
            assert(split_on("\n"@ + docker, '\n') =~= docker_lines(host, enable_docker));
        },
    }
}

/// A profile is read as its lines.
proof fn profile_is_lines(host: HostPaths, enable_docker: bool)
    requires
        shows_on_one_line(host),
    ensures
        split_on(profile_text(host, enable_docker), '\n') == profile_lines(host, enable_docker),
{
    reveal_rules();
    let general = default_section() + process_section() + ipc_section() + terminal_section()
        + network_section();
    let title = "; File reads: allow globally, deny sensitive paths"@;
    let allow = "(allow file-read*)"@;
    let both = "; File reads: allow globally, deny sensitive paths\n(allow file-read*)\n"@;
    let write_title = "; File writes: allow specific paths"@;
    reveal_strlit("; File reads: allow globally, deny sensitive paths");
    reveal_strlit("; File reads: allow globally, deny sensitive paths\n(allow file-read*)\n");
    reveal_strlit("(allow file-read*)");
    reveal_strlit("; File writes: allow specific paths");
    reveal_strlit("; File writes: allow specific paths\n");
    assert(both =~= title + seq!['\n'] + allow + seq!['\n']);
    assert("; File writes: allow specific paths\n"@ =~= write_title + seq!['\n']);
    let docker = docker_section(enable_docker, host.docker_socket);
    let last = "\n"@ + docker;
    let writes = write_rules(host.writable@) + last;
    let middle = write_title + seq!['\n'] + writes;
    let gap = Seq::<char>::empty() + seq!['\n'] + middle;
    let denies = deny_rules(host.deny@) + gap;
    let reads = allow + seq!['\n'] + denies;
    let whole = general + title + seq!['\n'] + reads;
    profile_is_joined(host, enable_docker, general, whole);
    rest_is_lines(host, enable_docker);
    write_rules_are_lines(host.writable@, last);
    text_is_split_at_each_separator(write_title, '\n', writes);
    text_is_split_at_each_separator(Seq::<char>::empty(), '\n', middle);
    deny_rules_are_lines(host.deny@, gap);
    text_is_split_at_each_separator(allow, '\n', denies);
    pieces_of_both_sides(general + title, '\n', reads);
    assert(split_on(whole, '\n') =~= profile_lines(host, enable_docker));
}

/// The parts of a profile, joined another way.
proof fn profile_is_joined(
    host: HostPaths,
    enable_docker: bool,
    general: Seq<char>,
    whole: Seq<char>,
)
    requires
        general == default_section() + process_section() + ipc_section() + terminal_section()
            + network_section(),
        whole == general + "; File reads: allow globally, deny sensitive paths"@ + seq!['\n'] + (
        "(allow file-read*)"@ + seq!['\n'] + (deny_rules(host.deny@) + (Seq::<char>::empty()
            + seq!['\n'] + ("; File writes: allow specific paths"@ + seq!['\n'] + (write_rules(
            host.writable@,
        ) + ("\n"@ + docker_section(enable_docker, host.docker_socket))))))),
        "; File reads: allow globally, deny sensitive paths\n(allow file-read*)\n"@
            == "; File reads: allow globally, deny sensitive paths"@ + seq!['\n']
            + "(allow file-read*)"@ + seq!['\n'],
        "; File writes: allow specific paths\n"@ == "; File writes: allow specific paths"@ + seq![
            '\n',
        ],
        "\n"@ == seq!['\n'],
    ensures
        whole == profile_text(host, enable_docker),
{
    let title = "; File reads: allow globally, deny sensitive paths"@;
    let feed = seq!['\n'];
    let allow = "(allow file-read*)"@;
    let deny = deny_rules(host.deny@);
    let write_title = "; File writes: allow specific paths"@;
    let write = write_rules(host.writable@);
    let docker = docker_section(enable_docker, host.docker_socket);
    joins_agree(general, title, feed, allow, deny, write_title, write, docker);
}

/// Joining the parts from the right is joining them from the left.
proof fn joins_agree(
    general: Seq<char>,
    title: Seq<char>,
    feed: Seq<char>,
    allow: Seq<char>,
    deny: Seq<char>,
    write_title: Seq<char>,
    write: Seq<char>,
    docker: Seq<char>,
)
    ensures
        general + title + feed + (allow + feed + (deny + (Seq::<char>::empty() + feed + (
        write_title + feed + (write + (feed + docker)))))) == general + (title + feed + allow
            + feed + deny + feed) + (write_title + feed + write + feed) + docker,
{
    assert(general + title + feed + (allow + feed + (deny + (Seq::<char>::empty() + feed + (
    write_title + feed + (write + (feed + docker)))))) =~= general + (title + feed + allow + feed
        + deny + feed) + (write_title + feed + write + feed) + docker);
}

/// Lines that say nothing on reading a path leave the verdict as it is.
proof fn verdict_stays(lines: Seq<Seq<char>>, more: Seq<Seq<char>>, path: Seq<char>)
    requires
        forall|i: int|
            0 <= i < more.len() ==> #[trigger] more[i] != "(allow file-read*)"@
                && !denies_reading(more[i], path),
    ensures
        may_read(lines + more, path) == may_read(lines, path),
    decreases more.len(),
{
    if more.len() == 0 {
        assert(lines + more =~= lines);
    } else {
        let most = more.drop_last();
        assert forall|i: int| 0 <= i < most.len() implies #[trigger] most[i]
            != "(allow file-read*)"@ && !denies_reading(most[i], path) by {
            assert(most[i] == more[i]);
        }
        verdict_stays(lines, most, path);
        assert((lines + more).drop_last() =~= lines + most);
        assert((lines + more).last() == more[more.len() - 1]);
    }
}

/// Rules that deny reading paths deny those paths, and leave the verdict on others as it
/// is.
proof fn verdict_after_denials(
    lines: Seq<Seq<char>>,
    paths: Seq<ProbedPath>,
    path: Seq<char>,
)
    ensures
        may_read(lines + Seq::new(paths.len(), |i: int| deny_line(paths[i])), path) == (may_read(
            lines,
            path,
        ) && forall|i: int|
            0 <= i < paths.len() ==> display((#[trigger] paths[i]).path@) != path),
    decreases paths.len(),
{
    let denials = Seq::new(paths.len(), |i: int| deny_line(paths[i]));
    let all = lines + denials;
    if paths.len() == 0 {
        assert(all =~= lines);
    } else {
        let most = paths.drop_last();
        let last = paths[paths.len() - 1];
        verdict_after_denials(lines, most, path);
        rules_are_told_apart(last.is_dir, display(last.path@), path);
        assert(all.drop_last() =~= lines + Seq::new(most.len(), |i: int| deny_line(most[i])));
        assert(all.last() == deny_line(last));
        if forall|i: int| 0 <= i < most.len() ==> display((#[trigger] most[i]).path@) != path {
            assert forall|i: int| 0 <= i < paths.len() - 1 implies display(
                (#[trigger] paths[i]).path@,
            ) != path by {
                assert(paths[i] == most[i]);
            }
        } else {
            let i = choose|i: int|
                0 <= i < most.len() && display((#[trigger] most[i]).path@) == path;
            assert(paths[i] == most[i]);
        }
    }
}

/// Lines without rules are told apart from rules.
proof fn remarks_are_no_rules(path: Seq<char>)
    ensures
        Seq::<char>::empty() != "(allow file-read*)"@,
        !denies_reading(Seq::<char>::empty(), path),
        !allows_writing(Seq::<char>::empty(), path),
        "; File writes: allow specific paths"@ != "(allow file-read*)"@,
        !denies_reading("; File writes: allow specific paths"@, path),
        !allows_writing("; File writes: allow specific paths"@, path),
        "; Docker socket"@ != "(allow file-read*)"@,
        !denies_reading("; Docker socket"@, path),
        !allows_writing("; Docker socket"@, path),
        !allows_writing("(allow file-read*)"@, path),
{
    reveal_rules();
    reveal_strlit("; File writes: allow specific paths");
    reveal_strlit("; Docker socket");
    reveal_strlit("(allow file-read*)");
    reveal_strlit("(deny file-read*");
    reveal_strlit("(allow file-write*");
    assert("; File writes: allow specific paths"@[0] == ';');
    assert("; Docker socket"@[0] == ';');
    assert(rule_line("(deny file-read*"@, true, path)[0] == '(');
    assert(rule_line("(deny file-read*"@, false, path)[0] == '(');
    assert(rule_line("(allow file-write*"@, true, path)[0] == '(');
    assert(rule_line("(allow file-write*"@, false, path)[0] == '(');
    assert(rule_line("(allow file-write*"@, true, path)[12] == 'w');
    assert(rule_line("(allow file-write*"@, false, path)[12] == 'w');
}

/// The jail may read a path unless it is one that is to be denied: the last rule on it in
/// the profile says so. A path that is shown on more than one line is no line of the
/// profile, so none may be.
pub proof fn jail_reads_all_but_the_denied_paths(
    host: HostPaths,
    enable_docker: bool,
    path: Seq<char>,
)
    requires
        shows_on_one_line(host),
    ensures
        may_read(split_on(profile_text(host, enable_docker), '\n'), path) <==> forall|i: int|
            0 <= i < host.deny@.len() ==> display((#[trigger] host.deny@[i]).path@) != path,
{
    profile_is_lines(host, enable_docker);
    remarks_are_no_rules(path);
    let start = general_lines() + seq!["(allow file-read*)"@];
    assert(start.last() == "(allow file-read*)"@);
    let denied = start + Seq::new(host.deny@.len(), |i: int| deny_line(host.deny@[i]));
    verdict_after_denials(start, host.deny@, path);
    let remarks = seq![Seq::empty(), "; File writes: allow specific paths"@];
    verdict_stays(denied, remarks, path);
    let writes = Seq::new(host.writable@.len(), |i: int| write_line(host.writable@[i]));
    assert forall|i: int| 0 <= i < writes.len() implies #[trigger] writes[i]
        != "(allow file-read*)"@ && !denies_reading(writes[i], path) by {
        let probed = host.writable@[i];
        rules_are_told_apart(probed.is_dir || !probed.exists, display(probed.path@), path);
    }
    verdict_stays(denied + remarks, writes, path);
    let docker = docker_lines(host, enable_docker);
    if let Some(socket) = host.docker_socket {
        rules_are_told_apart(false, display(socket@), path);
    }
    verdict_stays(denied + remarks + writes, docker, path);
}

/// The pieces of a text hold no character that the text does not hold.
proof fn pieces_hold_nothing_else(text: Seq<char>, separator: char, c: char)
    requires
        is_free_of(text, c),
    ensures
        forall|i: int|
            0 <= i < split_on(text, separator).len() ==> is_free_of(
                #[trigger] split_on(text, separator)[i],
                c,
            ),
    decreases text.len(),
{
    if text.len() > 0 {
        pieces_hold_nothing_else(text.drop_last(), separator, c);
        split_on_has_a_piece(text.drop_last(), separator);
    }
}

/// No line before the rules on the paths of the host allows writing a path.
proof fn general_lines_allow_no_writing(path: Seq<char>)
    ensures
        forall|i: int|
            0 <= i < general_lines().len() ==> !allows_writing(#[trigger] general_lines()[i], path),
{
    general_sections_have_no_star();
    reveal_strlit("(allow file-write*");
    let below = rule_line("(allow file-write*"@, true, path);
    let alone = rule_line("(allow file-write*"@, false, path);
    assert(below[17] == '*');
    assert(alone[17] == '*');
    pieces_hold_nothing_else(
        default_section() + process_section() + ipc_section() + terminal_section()
            + network_section() + "; File reads: allow globally, deny sensitive paths"@,
        '\n',
        '*',
    );
}

/// The sections before the rules on the paths of the host hold no star.
proof fn general_sections_have_no_star()
    ensures
        is_free_of(
            default_section() + process_section() + ipc_section() + terminal_section()
                + network_section() + "; File reads: allow globally, deny sensitive paths"@,
            '*',
        ),
{
    assert(is_free_of(default_section(), '*')) by {
        reveal_strlit("(version 1)\n(deny default)\n\n");
    }
    assert(is_free_of(process_section(), '*')) by {
        reveal_strlit(
            "; Process operations\n(allow process-exec)\n(allow process-fork)\n(allow signal)\n(allow sysctl-read)\n\n",
        );
    }
    assert(is_free_of(ipc_section(), '*')) by {
        reveal_strlit(
            "; IPC and Mach\n(allow mach-lookup)\n(allow mach-register)\n(allow ipc-posix-shm-read-data)\n(allow ipc-posix-shm-write-data)\n(allow ipc-posix-shm-read-metadata)\n(allow ipc-posix-shm-write-create)\n\n",
        );
    }
    assert(is_free_of(terminal_section(), '*')) by {
        reveal_strlit("; Pseudo-terminal\n(allow pseudo-tty)\n\n");
    }
    assert(is_free_of(network_section(), '*')) by {
        reveal_strlit(
            "; Network\n(allow network-outbound)\n(allow network-inbound)\n(allow network-bind)\n(allow system-socket)\n\n",
        );
    }
    assert(is_free_of("; File reads: allow globally, deny sensitive paths"@, '*')) by {
        reveal_strlit("; File reads: allow globally, deny sensitive paths");
    }
}

/// The jail may write the paths that are to be writable and, where Docker is let in, the
/// socket of its daemon, and no others. As for reading, no path may be shown on more than
/// one line.
pub proof fn jail_writes_the_writable_paths_only(
    host: HostPaths,
    enable_docker: bool,
    path: Seq<char>,
)
    requires
        shows_on_one_line(host),
    ensures
        may_write(split_on(profile_text(host, enable_docker), '\n'), path) <==> {
            ||| exists|i: int|
                0 <= i < host.writable@.len() && display((#[trigger] host.writable@[i]).path@)
                    == path
            ||| enable_docker && (host.docker_socket matches Some(socket) && display(socket@)
                == path)
        },
{
    profile_is_lines(host, enable_docker);
    remarks_are_no_rules(path);
    general_lines_allow_no_writing(path);
    let lines = profile_lines(host, enable_docker);
    let deny = host.deny@;
    let writable = host.writable@;
    let start: int = general_lines().len() as int + 1 + deny.len() + 2;
    let end: int = start + writable.len();
    assert forall|k: int| 0 <= k < writable.len() implies #[trigger] lines[start + k] == write_line(
        writable[k],
    ) by {}
    if exists|i: int| 0 <= i < writable.len() && display((#[trigger] writable[i]).path@) == path {
        let i = choose|i: int|
            0 <= i < writable.len() && display((#[trigger] writable[i]).path@) == path;
        rules_are_told_apart(writable[i].is_dir || !writable[i].exists, path, path);
        assert(allows_writing(lines[start + i], path));
    } else if enable_docker && (host.docker_socket matches Some(socket) && display(socket@)
        == path) {
        rules_are_told_apart(false, path, path);
        assert(lines[end + 2] == docker_lines(host, enable_docker)[2]);
        assert(allows_writing(lines[end + 2], path));
    } else {
        assert forall|i: int| 0 <= i < lines.len() implies !allows_writing(
            #[trigger] lines[i],
            path,
        ) by {
            let general = general_lines().len();
            if i < general {
                assert(lines[i] == general_lines()[i]);
            } else if i == general {
            } else if i < general + 1 + deny.len() {
                let probed = deny[i - general - 1];
                assert(lines[i] == deny_line(probed));
                rules_are_told_apart(probed.is_dir, display(probed.path@), path);
            } else if i < start {
            } else if i < end {
                let probed = writable[i - start];
                assert(lines[start + (i - start)] == write_line(probed));
                rules_are_told_apart(
                    probed.is_dir || !probed.exists,
                    display(probed.path@),
                    path,
                );
            } else {
                assert(lines[i] == docker_lines(host, enable_docker)[i - end]);
                if let Some(socket) = host.docker_socket {
                    rules_are_told_apart(false, display(socket@), path);
                }
            }
        }
    }
}

/// The rules of a list are those of its first part, then those of the rest.
proof fn deny_rules_are_joined(first: Seq<ProbedPath>, rest: Seq<ProbedPath>)
    ensures
        deny_rules(first + rest) == deny_rules(first) + deny_rules(rest),
    decreases rest.len(),
{
    if rest.len() == 0 {
        assert(first + rest =~= first);
        assert(deny_rules(first) + deny_rules(rest) =~= deny_rules(first));
    } else {
        let most = rest.drop_last();
        deny_rules_are_joined(first, most);
        assert((first + rest).drop_last() =~= first + most);
        assert(deny_rules(first + rest) =~= deny_rules(first) + deny_rules(rest));
    }
}

/// Whatever the paths are, the general rule that allows reading stands before the rule
/// that denies a path, and after that rule stand only those that deny further paths, the
/// rules on writing and that on the socket of Docker.
pub proof fn denial_comes_after_what_it_excepts(host: HostPaths, enable_docker: bool, i: int)
    requires
        0 <= i < host.deny@.len(),
    ensures
        ({
            let probed = host.deny@[i];
            let rule = "(deny file-read*"@ + (if probed.is_dir {
                " (subpath \""@
            } else {
                " (literal \""@
            }) + display(probed.path@) + "\"))\n"@;
            exists|before: Seq<char>|
                profile_text(host, enable_docker) == #[trigger] (before
                    + "(allow file-read*)\n"@) + deny_rules(host.deny@.take(i)) + rule + (
                deny_rules(host.deny@.skip(i + 1)) + "\n; File writes: allow specific paths\n"@
                    + write_rules(host.writable@) + "\n"@ + docker_section(
                    enable_docker,
                    host.docker_socket,
                ))
        }),
{
    let deny = host.deny@;
    let probed = deny[i];
    let rule = path_rule("(deny file-read*"@, probed.is_dir, probed.path@);
    assert(deny.take(i + 1).drop_last() =~= deny.take(i));
    assert(deny.take(i + 1).last() == probed);
    assert(deny =~= deny.take(i + 1) + deny.skip(i + 1));
    deny_rules_are_joined(deny.take(i + 1), deny.skip(i + 1));
    let title = "; File reads: allow globally, deny sensitive paths\n"@;
    let allow = "(allow file-read*)\n"@;
    let both = "; File reads: allow globally, deny sensitive paths\n(allow file-read*)\n"@;
    reveal_strlit("; File reads: allow globally, deny sensitive paths\n");
    reveal_strlit("(allow file-read*)\n");
    reveal_strlit("; File reads: allow globally, deny sensitive paths\n(allow file-read*)\n");
    assert(both =~= title + allow);
    let gap = "\n; File writes: allow specific paths\n"@;
    let write_title = "; File writes: allow specific paths\n"@;
    reveal_strlit("\n; File writes: allow specific paths\n");
    reveal_strlit("; File writes: allow specific paths\n");
    reveal_strlit("\n");
    assert(gap =~= "\n"@ + write_title);
    let general = default_section() + process_section() + ipc_section() + terminal_section()
        + network_section();
    parts_agree(
        general,
        title,
        allow,
        deny_rules(deny.take(i)),
        rule,
        deny_rules(deny.skip(i + 1)),
        "\n"@,
        write_title,
        write_rules(host.writable@),
        docker_section(enable_docker, host.docker_socket),
    );
    let before = general + title;
    assert(profile_text(host, enable_docker) == (before + allow) + deny_rules(deny.take(i)) + rule
        + (deny_rules(deny.skip(i + 1)) + gap + write_rules(host.writable@) + "\n"@
        + docker_section(enable_docker, host.docker_socket)));
}

/// Joining the parts around one rule is joining them from the left.
proof fn parts_agree(
    general: Seq<char>,
    title: Seq<char>,
    allow: Seq<char>,
    first: Seq<char>,
    rule: Seq<char>,
    rest: Seq<char>,
    feed: Seq<char>,
    write_title: Seq<char>,
    write: Seq<char>,
    docker: Seq<char>,
)
    ensures
        ((general + title) + allow) + first + rule + (rest + (feed + write_title) + write + feed
            + docker) == general + ((title + allow) + (first + rule + rest) + feed) + (write_title
            + write + feed) + docker,
{
    assert(((general + title) + allow) + first + rule + (rest + (feed + write_title) + write + feed
        + docker) =~= general + ((title + allow) + (first + rule + rest) + feed) + (write_title
        + write + feed) + docker);
}

} // verus!
