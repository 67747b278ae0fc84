use ai_jail::mounts::{enabled_sources, extra_mounts, mount_args, project_mount, Mount};
use ai_jail::config::Config;

#[test]
fn mount_args_ro_bind() {
    let mounts = vec![Mount::RoBind {
        src: "/usr".into(),
        dest: "/usr".into(),
    }];
    let args = mount_args(&mounts);
    assert_eq!(args, vec!["--ro-bind", "/usr", "/usr"]);
}

#[test]
fn mount_args_bind() {
    let mounts = vec![Mount::Bind {
        src: "/tmp".into(),
        dest: "/tmp".into(),
    }];
    let args = mount_args(&mounts);
    assert_eq!(args, vec!["--bind", "/tmp", "/tmp"]);
}

#[test]
fn mount_args_dev_bind() {
    let mounts = vec![Mount::DevBind {
        src: "/dev/dri".into(),
        dest: "/dev/dri".into(),
    }];
    let args = mount_args(&mounts);
    assert_eq!(args, vec!["--dev-bind", "/dev/dri", "/dev/dri"]);
}

#[test]
fn mount_args_dev() {
    let mounts = vec![Mount::Dev {
        dest: "/dev".into(),
    }];
    let args = mount_args(&mounts);
    assert_eq!(args, vec!["--dev", "/dev"]);
}

#[test]
fn mount_args_proc() {
    let mounts = vec![Mount::Proc {
        dest: "/proc".into(),
    }];
    let args = mount_args(&mounts);
    assert_eq!(args, vec!["--proc", "/proc"]);
}

#[test]
fn mount_args_tmpfs() {
    let mounts = vec![Mount::Tmpfs {
        dest: "/tmp".into(),
    }];
    let args = mount_args(&mounts);
    assert_eq!(args, vec!["--tmpfs", "/tmp"]);
}

#[test]
fn mount_args_symlink() {
    let mounts = vec![Mount::Symlink {
        src: "usr/bin".into(),
        dest: "/bin".into(),
    }];
    let args = mount_args(&mounts);
    assert_eq!(args, vec!["--symlink", "usr/bin", "/bin"]);
}

#[test]
fn mount_args_file_ro_bind() {
    let mounts = vec![Mount::FileRoBind {
        src: "/tmp/hosts".into(),
        dest: "/etc/hosts".into(),
    }];
    let args = mount_args(&mounts);
    assert_eq!(args, vec!["--ro-bind", "/tmp/hosts", "/etc/hosts"]);
}

#[test]
fn mount_args_multiple() {
    let mounts = vec![
        Mount::RoBind {
            src: "/usr".into(),
            dest: "/usr".into(),
        },
        Mount::Tmpfs {
            dest: "/tmp".into(),
        },
    ];
    let args = mount_args(&mounts);
    assert_eq!(
        args,
        vec!["--ro-bind", "/usr", "/usr", "--tmpfs", "/tmp"]
    );
}

#[test]
fn mount_args_empty() {
    let mounts: Vec<Mount> = vec![];
    let args = mount_args(&mounts);
    assert!(args.is_empty());
}

#[test]
fn mount_args_show_broken_bytes_replaced() {
    let mounts = vec![Mount::Bind {
        src: b"/m\xfcll".to_vec(),
        dest: "/m\u{fc}ll".into(),
    }];
    assert_eq!(mount_args(&mounts), vec!["--bind", "/m\u{fffd}ll", "/m\u{fc}ll"]);
}

#[test]
fn extra_mounts_are_writable_first() {
    let rw: Vec<Vec<u8>> = vec!["/a".into(), "/b".into()];
    let ro: Vec<Vec<u8>> = vec!["/c".into()];
    assert_eq!(
        mount_args(&extra_mounts(&rw, &ro)),
        vec!["--bind", "/a", "/a", "--bind", "/b", "/b", "--ro-bind", "/c", "/c"]
    );
}

#[test]
fn project_mount_is_writable() {
    assert_eq!(
        mount_args(&project_mount(b"/home/user/project")),
        vec!["--bind", "/home/user/project", "/home/user/project"]
    );
}

#[test]
fn sources_are_enabled_unless_switched_off() {
    let all = enabled_sources(&Config::default());
    assert!(all.gpu && all.docker && all.display);
    let some = enabled_sources(&Config {
        no_gpu: Some(true),
        no_docker: Some(false),
        no_display: Some(true),
        ..Config::default()
    });
    assert!(!some.gpu && some.docker && !some.display);
}
