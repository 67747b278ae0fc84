use ai_jail::bwrap::{build_bwrap, build_bwrap_dry_run, check_bwrap, VersionReply};
use ai_jail::config::Config;
use ai_jail::dry_run::format_dry_run;
use ai_jail::mounts::{HostMounts, Mount};
use ai_jail::sandbox::{check_sandbox, Probe};

const PROJECT: &[u8] = b"/home/user/project";

fn device(path: &str) -> Mount {
    Mount::DevBind {
        src: path.into(),
        dest: path.into(),
    }
}

fn host() -> HostMounts {
    HostMounts {
        base: vec![
            Mount::RoBind {
                src: "/usr".into(),
                dest: "/usr".into(),
            },
            Mount::FileRoBind {
                src: "/tmp/test-hosts".into(),
                dest: "/etc/hosts".into(),
            },
        ],
        home_dotfiles: vec![Mount::Tmpfs {
            dest: "/home/user".into(),
        }],
        config_hide: vec![Mount::Tmpfs {
            dest: "/home/user/.config/hidden".into(),
        }],
        cache_hide: vec![Mount::Tmpfs {
            dest: "/home/user/.cache/hidden".into(),
        }],
        local_overrides: vec![Mount::Bind {
            src: "/home/user/.local/state".into(),
            dest: "/home/user/.local/state".into(),
        }],
        gpu: vec![device("/dev/nvidia0"), device("/dev/dri")],
        docker: vec![Mount::Bind {
            src: "/var/run/docker.sock".into(),
            dest: "/var/run/docker.sock".into(),
        }],
        shm: vec![device("/dev/shm")],
        display: vec![Mount::Bind {
            src: "/tmp/.X11-unix".into(),
            dest: "/tmp/.X11-unix".into(),
        }],
        display_env: vec![
            ("DISPLAY".into(), ":0".into()),
            ("WAYLAND_DISPLAY".into(), "wayland-1".into()),
        ],
    }
}

#[test]
fn dry_run_contains_isolation_flags() {
    let config = Config {
        command: vec!["bash".into()],
        no_gpu: Some(true),
        no_docker: Some(true),
        no_display: Some(true),
        no_mise: Some(true),
        ..Config::default()
    };

    let args = build_bwrap_dry_run(&config, PROJECT, host(), &None);

    assert!(args.contains(&"--die-with-parent".to_string()));
    assert!(args.contains(&"--unshare-pid".to_string()));
    assert!(args.contains(&"--unshare-uts".to_string()));
    assert!(args.contains(&"--unshare-ipc".to_string()));
    assert!(args.contains(&"--hostname".to_string()));
    assert!(args.contains(&"ai-sandbox".to_string()));
}

#[test]
fn dry_run_contains_project_dir() {
    let config = Config {
        command: vec!["bash".into()],
        no_gpu: Some(true),
        no_docker: Some(true),
        no_display: Some(true),
        no_mise: Some(true),
        ..Config::default()
    };

    let args = build_bwrap_dry_run(&config, PROJECT, host(), &None);

    // Should have --bind /home/user/project /home/user/project
    let project_str = "/home/user/project".to_string();
    let bind_idx = args
        .windows(3)
        .position(|w| w[0] == "--bind" && w[1] == project_str && w[2] == project_str);
    assert!(bind_idx.is_some(), "Project dir should be bound rw");

    // Should have --chdir /home/user/project
    let chdir_idx = args
        .windows(2)
        .position(|w| w[0] == "--chdir" && w[1] == project_str);
    assert!(chdir_idx.is_some(), "Should chdir to project dir");
    assert_eq!(chdir_idx.unwrap(), bind_idx.unwrap() + 3);
}

#[test]
fn dry_run_no_gpu_excludes_gpu_mounts() {
    let config = Config {
        command: vec!["bash".into()],
        no_gpu: Some(true),
        no_docker: Some(true),
        no_display: Some(true),
        no_mise: Some(true),
        ..Config::default()
    };

    let args = build_bwrap_dry_run(&config, PROJECT, host(), &None);

    let has_gpu_dev_bind = args.windows(3).any(|w| {
        w[0] == "--dev-bind"
            && (w[1].contains("nvidia") || w[1].contains("/dev/dri"))
    });
    assert!(!has_gpu_dev_bind, "GPU disabled: no --dev-bind for GPU devices expected");
}

#[test]
fn dry_run_no_docker_excludes_docker_socket() {
    let config = Config {
        command: vec!["bash".into()],
        no_docker: Some(true),
        no_gpu: Some(true),
        no_display: Some(true),
        no_mise: Some(true),
        ..Config::default()
    };

    let args = build_bwrap_dry_run(&config, PROJECT, host(), &None);

    let has_docker = args.iter().any(|a| a.contains("docker.sock"));
    assert!(!has_docker, "Docker disabled: no docker socket expected");
}

#[test]
fn dry_run_no_display_excludes_display_env() {
    let config = Config {
        command: vec!["bash".into()],
        no_display: Some(true),
        no_gpu: Some(true),
        no_docker: Some(true),
        no_mise: Some(true),
        ..Config::default()
    };

    let args = build_bwrap_dry_run(&config, PROJECT, host(), &None);

    let display_idx = args
        .windows(3)
        .any(|w| w[0] == "--setenv" && (w[1] == "DISPLAY" || w[1] == "WAYLAND_DISPLAY"));
    assert!(!display_idx, "Display disabled: no DISPLAY env expected");
    assert!(!args.iter().any(|a| a.contains("X11")));
}

#[test]
fn dry_run_mise_disabled_uses_true_prefix() {
    let config = Config {
        command: vec!["agent".into()],
        no_mise: Some(true),
        no_gpu: Some(true),
        no_docker: Some(true),
        no_display: Some(true),
        ..Config::default()
    };

    let mise = Some(b"/usr/bin/mise".to_vec());
    let args = build_bwrap_dry_run(&config, PROJECT, host(), &mise);

    let last = args.last().unwrap();
    assert!(last.starts_with("true && "), "Mise disabled: should use 'true' prefix, got: {last}");
}

#[test]
fn dry_run_default_command_is_bash() {
    let config = Config {
        no_gpu: Some(true),
        no_docker: Some(true),
        no_display: Some(true),
        no_mise: Some(true),
        ..Config::default()
    };

    let args = build_bwrap_dry_run(&config, PROJECT, host(), &None);
    let last = args.last().unwrap();
    assert!(last.ends_with("bash"), "Default command should be bash, got: {last}");
}

#[test]
fn dry_run_env_vars_present() {
    let config = Config {
        command: vec!["bash".into()],
        no_gpu: Some(true),
        no_docker: Some(true),
        no_display: Some(true),
        no_mise: Some(true),
        ..Config::default()
    };

    let args = build_bwrap_dry_run(&config, PROJECT, host(), &None);

    let has_ps1 = args.windows(3).any(|w| w[0] == "--setenv" && w[1] == "PS1");
    assert!(has_ps1, "PS1 env var should be set");

    let has_zo = args.windows(3).any(|w| w[0] == "--setenv" && w[1] == "_ZO_DOCTOR" && w[2] == "0");
    assert!(has_zo, "_ZO_DOCTOR env var should be set to 0");
}

#[test]
fn dry_run_extra_rw_maps_present() {
    let config = Config {
        command: vec!["bash".into()],
        rw_maps: vec!["/tmp".into()],
        no_gpu: Some(true),
        no_docker: Some(true),
        no_display: Some(true),
        no_mise: Some(true),
        ..Config::default()
    };

    let args = build_bwrap_dry_run(&config, PROJECT, host(), &None);

    let has_tmp_bind = args
        .windows(3)
        .any(|w| w[0] == "--bind" && w[1] == "/tmp" && w[2] == "/tmp");
    assert!(has_tmp_bind, "Extra rw map /tmp should be present");
}

#[test]
fn dry_run_is_exact() {
    let config = Config {
        command: vec!["run".into(), "it now".into()],
        rw_maps: vec!["/rw".into()],
        ro_maps: vec!["/ro".into()],
        ..Config::default()
    };
    let args = build_bwrap_dry_run(&config, b"/p", host(), &Some(b"/m".to_vec()));
    let expected = vec![
        "bwrap",
        "--ro-bind", "/usr", "/usr",
        "--ro-bind", "/tmp/test-hosts", "/etc/hosts",
        "--dev-bind", "/dev/nvidia0", "/dev/nvidia0",
        "--dev-bind", "/dev/dri", "/dev/dri",
        "--dev-bind", "/dev/shm", "/dev/shm",
        "--bind", "/var/run/docker.sock", "/var/run/docker.sock",
        "--bind", "/tmp/.X11-unix", "/tmp/.X11-unix",
        "--tmpfs", "/home/user",
        "--tmpfs", "/home/user/.config/hidden",
        "--tmpfs", "/home/user/.cache/hidden",
        "--bind", "/home/user/.local/state", "/home/user/.local/state",
        "--bind", "/rw", "/rw",
        "--ro-bind", "/ro", "/ro",
        "--bind", "/p", "/p",
        "--chdir", "/p",
        "--die-with-parent",
        "--unshare-pid",
        "--unshare-uts",
        "--unshare-ipc",
        "--hostname", "ai-sandbox",
        "--setenv", "DISPLAY", ":0",
        "--setenv", "WAYLAND_DISPLAY", "wayland-1",
        "--setenv", "PS1", "(jail) \\w \\$ ",
        "--setenv", "_ZO_DOCTOR", "0",
        "bash", "-c",
        "/m trust && eval \"$(/m activate bash)\" && eval \"$(/m env)\" && run 'it now'",
    ];
    assert_eq!(args, expected);
}

#[test]
fn dry_run_shows_the_arguments_that_run() {
    let config = Config {
        rw_maps: vec![b"/caf\xe9".to_vec(), "/caf\u{e9}".into()],
        ..Config::default()
    };
    let argv = build_bwrap(&config, b"/pr\xffj", host(), &None);
    let shown = build_bwrap_dry_run(&config, b"/pr\xffj", host(), &None);
    let displayed: Vec<String> = argv
        .iter()
        .map(|bytes| String::from_utf8_lossy(bytes).into_owned())
        .collect();
    assert_eq!(shown, displayed);
    assert!(argv.contains(&b"/pr\xffj".to_vec()));
    assert!(argv.contains(&b"/caf\xe9".to_vec()));
    assert!(shown.contains(&"/pr\u{fffd}j".to_string()));
    assert_eq!(argv[0], b"bwrap".to_vec());
}

#[test]
fn dry_run_lays_out_the_project() {
    let config = Config {
        no_mise: Some(true),
        ..Config::default()
    };
    let args = build_bwrap_dry_run(&config, b"/my project", host(), &None);
    let out = format_dry_run(&args);
    assert!(out.contains("  --bind '/my project' '/my project' \\\n  --chdir '/my project' \\\n"));
    assert!(out.ends_with("  bash -c 'true && bash'\n"));
}

#[test]
fn check_bwrap_tells_what_is_wrong() {
    assert_eq!(check_bwrap(VersionReply::Succeeded), Ok(()));
    assert_eq!(
        check_bwrap(VersionReply::Failed),
        Err("bwrap found but returned an error. Check your installation.".to_string())
    );
    assert_eq!(
        check_bwrap(VersionReply::NotStarted),
        Err("bwrap (bubblewrap) not found. Install it:\n  \
             Arch: pacman -S bubblewrap\n  \
             Debian/Ubuntu: apt install bubblewrap\n  \
             Fedora: dnf install bubblewrap"
            .to_string())
    );
}

#[test]
fn check_sandbox_goes_by_the_platform() {
    assert_eq!(check_sandbox(Probe::Bwrap(VersionReply::Succeeded)), Ok(()));
    assert_eq!(
        check_sandbox(Probe::Bwrap(VersionReply::Failed)),
        check_bwrap(VersionReply::Failed)
    );
    assert_eq!(check_sandbox(Probe::SandboxExec { is_file: true }), Ok(()));
    assert_eq!(
        check_sandbox(Probe::SandboxExec { is_file: false }),
        Err("sandbox-exec not found at /usr/bin/sandbox-exec. \
             This tool is required for sandboxing on macOS."
            .to_string())
    );
    assert_eq!(
        check_sandbox(Probe::Unsupported),
        Err("ai-jail is only supported on Linux and macOS".to_string())
    );
}
