use ai_jail::config::Config;
use ai_jail::path::canonicalize_or_keep;
use ai_jail::sbpl::{
    build_sandbox_exec, build_sandbox_exec_dry_run, format_dry_run_macos, generate_sbpl_profile,
    profile_messages, HostPaths, ProbedPath,
};

fn probed(path: &str, is_dir: bool, exists: bool) -> ProbedPath {
    ProbedPath {
        path: path.into(),
        is_dir,
        exists,
    }
}

fn host() -> HostPaths {
    HostPaths {
        deny: vec![
            probed("/Users/me/.ssh", true, true),
            probed("/Users/me/.netrc", false, true),
        ],
        writable: vec![
            probed("/tmp/test-project", false, false),
            probed("/private/tmp", true, true),
            probed("/dev/null", false, true),
        ],
        docker_socket: Some("/var/run/docker.sock".into()),
    }
}

#[test]
fn sbpl_profile_has_deny_default() {
    let profile = generate_sbpl_profile(&host(), false);
    assert!(profile.contains("(deny default)"));
}

#[test]
fn sbpl_profile_allows_file_read() {
    let profile = generate_sbpl_profile(&host(), false);
    assert!(profile.contains("(allow file-read*)"));
}

#[test]
fn sbpl_profile_denies_ssh() {
    let profile = generate_sbpl_profile(&host(), false);
    assert!(profile.contains(".ssh"));
}

#[test]
fn sbpl_profile_allows_project_write() {
    let profile = generate_sbpl_profile(&host(), false);
    assert!(profile.contains("file-write*"));
    assert!(profile.contains("(allow file-write* (subpath \"/tmp/test-project\"))\n"));
}

#[test]
fn sbpl_profile_allows_network() {
    let profile = generate_sbpl_profile(&host(), false);
    assert!(profile.contains("(allow network-outbound)"));
    assert!(profile.contains("(allow network-inbound)"));
}

#[test]
fn sbpl_profile_is_exact() {
    let expected = "(version 1)\n(deny default)\n\n\
        ; Process operations\n(allow process-exec)\n(allow process-fork)\n(allow signal)\n\
        (allow sysctl-read)\n\n\
        ; IPC and Mach\n(allow mach-lookup)\n(allow mach-register)\n\
        (allow ipc-posix-shm-read-data)\n(allow ipc-posix-shm-write-data)\n\
        (allow ipc-posix-shm-read-metadata)\n(allow ipc-posix-shm-write-create)\n\n\
        ; Pseudo-terminal\n(allow pseudo-tty)\n\n\
        ; Network\n(allow network-outbound)\n(allow network-inbound)\n(allow network-bind)\n\
        (allow system-socket)\n\n\
        ; File reads: allow globally, deny sensitive paths\n(allow file-read*)\n\
        (deny file-read* (subpath \"/Users/me/.ssh\"))\n\
        (deny file-read* (literal \"/Users/me/.netrc\"))\n\n\
        ; File writes: allow specific paths\n\
        (allow file-write* (subpath \"/tmp/test-project\"))\n\
        (allow file-write* (subpath \"/private/tmp\"))\n\
        (allow file-write* (literal \"/dev/null\"))\n\n";
    let docker = "; Docker socket\n(allow file-write* (literal \"/var/run/docker.sock\"))\n\n";
    assert_eq!(generate_sbpl_profile(&host(), false), expected);
    assert_eq!(generate_sbpl_profile(&host(), true), format!("{expected}{docker}"));
    let without = HostPaths {
        docker_socket: None,
        ..host()
    };
    assert_eq!(generate_sbpl_profile(&without, true), expected);
}

#[test]
fn dry_run_macos_output() {
    let config = Config {
        command: vec!["bash".into()],
        no_mise: Some(true),
        ..Config::default()
    };
    let (cmd_line, profile) = build_sandbox_exec_dry_run(&config, &host(), &None);
    let output = format_dry_run_macos(&cmd_line, &profile);
    assert!(output.contains("sandbox-exec"));
    assert!(output.contains("SBPL profile"));
}

#[test]
fn dry_run_macos_is_exact() {
    let config = Config {
        no_docker: Some(true),
        no_mise: Some(true),
        ..Config::default()
    };
    let (cmd_line, profile) = build_sandbox_exec_dry_run(&config, &host(), &None);
    assert_eq!(cmd_line, "sandbox-exec -p '<profile>' bash -c 'true && bash'");
    assert_eq!(profile, generate_sbpl_profile(&host(), false));
    assert_eq!(
        format_dry_run_macos("one", "two"),
        "# sandbox-exec command:\none\n\n# SBPL profile:\ntwo"
    );
}

#[test]
fn sandbox_exec_gets_profile_and_command() {
    let config = Config {
        no_mise: Some(true),
        ..Config::default()
    };
    let invocation = build_sandbox_exec(&config, b"/pr\xffj", &host(), &None);
    let profile = generate_sbpl_profile(&host(), true);
    assert_eq!(invocation.program, "/usr/bin/sandbox-exec");
    assert_eq!(invocation.args, vec!["-p", profile.as_str(), "bash", "-c", "true && bash"]);
    assert_eq!(invocation.current_dir, b"/pr\xffj".to_vec());
    let env: Vec<(String, String)> = vec![
        ("PS1".into(), "(jail) \\w \\$ ".into()),
        ("_ZO_DOCTOR".into(), "0".into()),
    ];
    assert_eq!(invocation.env, env);
}

#[test]
fn profile_messages_are_indented_lines() {
    assert_eq!(
        profile_messages("a\nb\r\n\nc\r"),
        vec!["SBPL profile:", "  a", "  b", "  ", "  c\r"]
    );
    assert_eq!(profile_messages(""), vec!["SBPL profile:"]);
    for text in ["", "a", "a\n", "\n\n", "a\r\nb", "\r\n", "x\r\r\ny\r"] {
        let expected: Vec<String> = std::iter::once("SBPL profile:".to_string())
            .chain(text.lines().map(|line| format!("  {line}")))
            .collect();
        assert_eq!(profile_messages(text), expected);
    }
}

#[test]
fn unresolved_paths_are_kept() {
    assert_eq!(canonicalize_or_keep(b"/tmp", None), b"/tmp".to_vec());
    assert_eq!(
        canonicalize_or_keep(b"/tmp", Some(b"/private/tmp".to_vec())),
        b"/private/tmp".to_vec()
    );
}
