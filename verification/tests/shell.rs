use ai_jail::config::Config;
use ai_jail::shell::{
    build_shell_command, mise_bin, mise_candidates, mise_init_cmd, shell_join,
};

#[test]
fn shell_join_simple() {
    let parts = vec!["agent".to_string()];
    assert_eq!(shell_join(&parts), "agent");
}

#[test]
fn shell_join_multiple_words() {
    let parts: Vec<String> = vec!["agent".into(), "--model".into(), "opus".into()];
    assert_eq!(shell_join(&parts), "agent --model opus");
}

#[test]
fn shell_join_with_spaces() {
    let parts: Vec<String> = vec!["echo".into(), "hello world".into()];
    assert_eq!(shell_join(&parts), "echo 'hello world'");
}

#[test]
fn shell_join_with_single_quotes() {
    let parts: Vec<String> = vec!["echo".into(), "it's".into()];
    assert_eq!(shell_join(&parts), "echo 'it'\\''s'");
}

#[test]
fn shell_join_empty() {
    let parts: Vec<String> = vec![];
    assert_eq!(shell_join(&parts), "");
}

#[test]
fn shell_join_quotes_what_needs_it() {
    let parts: Vec<String> = vec![
        "say \"hi\"".into(),
        "back\\slash".into(),
        "tab\there".into(),
        "wide\u{3000}space".into(),
        "$HOME".into(),
        "".into(),
        "'".into(),
    ];
    assert_eq!(
        shell_join(&parts),
        "'say \"hi\"' 'back\\slash' 'tab\there' 'wide\u{3000}space' $HOME  ''\\'''"
    );
}

#[test]
fn mise_init_cmd_format() {
    let cmd = mise_init_cmd(b"/usr/bin/mise");
    assert!(cmd.contains("/usr/bin/mise trust"));
    assert!(cmd.contains("/usr/bin/mise activate bash"));
    assert!(cmd.contains("/usr/bin/mise env"));
}

#[test]
fn mise_init_cmd_is_exact() {
    assert_eq!(
        mise_init_cmd(b"/opt/mise"),
        "/opt/mise trust && eval \"$(/opt/mise activate bash)\" && eval \"$(/opt/mise env)\""
    );
}

#[test]
fn mise_init_cmd_replaces_broken_bytes() {
    let cmd = mise_init_cmd(b"/opt/\xff/mise");
    assert!(cmd.starts_with("/opt/\u{fffd}/mise trust"));
}

#[test]
fn mise_candidates_follow_the_search_path() {
    let places = mise_candidates(Some("/usr/bin:/opt/bin/::relative"));
    let expected: Vec<Vec<u8>> = vec![
        b"/usr/bin/mise".to_vec(),
        b"/opt/bin/mise".to_vec(),
        b"mise".to_vec(),
        b"relative/mise".to_vec(),
    ];
    assert_eq!(places, expected);
    assert!(mise_candidates(None).is_empty());
    assert_eq!(mise_candidates(Some("")), vec![b"mise".to_vec()]);
}

#[test]
fn mise_candidates_agree_with_path_join() {
    for path in ["/usr/bin", "/opt/bin/", "", "/", "a/b", "gr\u{fc}n"] {
        let joined = std::path::PathBuf::from(path).join("mise");
        let places = mise_candidates(Some(path));
        assert_eq!(places, vec![joined.to_str().unwrap().as_bytes().to_vec()]);
    }
}

#[test]
fn mise_bin_is_the_first_file() {
    let places = vec![
        (b"/a/mise".to_vec(), false),
        (b"/b/mise".to_vec(), true),
        (b"/c/mise".to_vec(), true),
    ];
    assert_eq!(mise_bin(&places), Some(b"/b/mise".to_vec()));
    assert_eq!(mise_bin(&places[..1]), None);
}

#[test]
fn build_shell_command_default_is_bash() {
    let config = Config {
        no_mise: Some(true),
        ..Config::default()
    };
    let cmd = build_shell_command(&config, &None);
    assert_eq!(cmd, "true && bash");
}

#[test]
fn build_shell_command_with_command() {
    let config = Config {
        command: vec!["agent".into()],
        no_mise: Some(true),
        ..Config::default()
    };
    let cmd = build_shell_command(&config, &None);
    assert_eq!(cmd, "true && agent");
}

#[test]
fn build_shell_command_leaves_mise_out_when_switched_off() {
    let mise = Some(b"/usr/bin/mise".to_vec());
    let off = Config {
        no_mise: Some(true),
        ..Config::default()
    };
    assert_eq!(build_shell_command(&off, &mise), "true && bash");
    let on = Config {
        no_mise: Some(false),
        ..Config::default()
    };
    assert_eq!(
        build_shell_command(&on, &mise),
        format!("{} && bash", mise_init_cmd(b"/usr/bin/mise"))
    );
    assert_eq!(build_shell_command(&Config::default(), &None), "true && bash");
}
