use ai_jail::dry_run::format_dry_run;

fn strings(list: &[&str]) -> Vec<String> {
    list.iter().map(|s| s.to_string()).collect()
}

#[test]
fn format_dry_run_basic() {
    let args: Vec<String> = vec![
        "bwrap".into(),
        "--ro-bind".into(), "/usr".into(), "/usr".into(),
        "--tmpfs".into(), "/tmp".into(),
        "bash".into(), "-c".into(), "true && bash".into(),
    ];
    let output = format_dry_run(&args);
    assert!(output.starts_with("bwrap \\\n"));
    assert!(output.contains("--ro-bind /usr /usr"));
    assert!(output.contains("--tmpfs /tmp"));
    assert!(output.contains("bash -c"));
}

#[test]
fn format_dry_run_empty() {
    let args: Vec<String> = vec![];
    let output = format_dry_run(&args);
    assert!(output.is_empty());
}

#[test]
fn format_dry_run_is_exact() {
    let args = strings(&[
        "bwrap", "--bind", "/my dir", "/x(y)", "--die-with-parent", "--setenv", "PS1",
        "(jail) \\w \\$ ", "bash", "-c", "true && bash", "$HOME", "--flag", "plain",
    ]);
    assert_eq!(
        format_dry_run(&args),
        "bwrap \\\n  --bind '/my dir' /x(y) \\\n  --die-with-parent \\\n  \
         --setenv PS1 '(jail) \\w \\$ ' \\\n  bash -c 'true && bash' '$HOME' --flag plain\n"
    );
}

#[test]
fn format_dry_run_without_a_command() {
    assert_eq!(format_dry_run(&strings(&["bwrap"])), "bwrap \\\n");
    assert_eq!(
        format_dry_run(&strings(&["bwrap", "--version"])),
        "bwrap \\\n  --version \\\n"
    );
    assert_eq!(
        format_dry_run(&strings(&["bwrap", "sh", "-c", "(x)"])),
        "bwrap \\\n  sh -c '(x)'\n"
    );
}

#[test]
fn format_dry_run_prints_options_unquoted() {
    assert_eq!(
        format_dry_run(&strings(&["my prog", "--an option", "--", "", "-"])),
        "my prog \\\n  --an option \\\n  --  - \\\n"
    );
}
