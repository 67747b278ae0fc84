use ai_jail::hosts::{hosts_contents, hosts_file_name};
use ai_jail::run::{Event, Flags, Platform, Run, Stage};

const PLAIN: Flags = Flags {
    clean: false,
    status: false,
    init: false,
    dry_run: false,
    verbose: false,
};

fn stages(platform: Platform, flags: Flags, no_gpu: bool, no_display: bool) -> (Vec<Stage>, i32) {
    let mut run = Run::new(platform);
    let mut seen = Vec::new();
    while run.exit_status().is_none() {
        seen.push(run.stage);
        let event = match run.stage {
            Stage::ParseArguments => Event::Parsed(flags),
            Stage::MergeConfig => Event::Merged {
                no_gpu: Some(no_gpu),
                no_display: Some(no_display),
            },
            Stage::Wait => Event::Exited(7),
            _ => Event::Done,
        };
        run = run.advance(event);
    }
    (seen, run.exit_status().unwrap())
}

#[test]
fn full_run_on_linux() {
    assert_eq!(
        stages(Platform::Linux, PLAIN, true, true),
        (
            vec![
                Stage::ParseArguments,
                Stage::LoadConfig,
                Stage::MergeConfig,
                Stage::CheckSandbox,
                Stage::CreateHosts,
                Stage::FindDirectory,
                Stage::SaveConfig,
                Stage::AnnounceJail,
                Stage::InstallHandlers,
                Stage::Spawn,
                Stage::Wait,
            ],
            7
        )
    );
}

#[test]
fn dry_run_on_macos_notes_what_has_no_effect() {
    let flags = Flags {
        clean: true,
        dry_run: true,
        ..PLAIN
    };
    assert_eq!(
        stages(Platform::MacOs, flags, true, true),
        (
            vec![
                Stage::ParseArguments,
                Stage::MergeConfig,
                Stage::CheckSandbox,
                Stage::NoteGpu,
                Stage::NoteDisplay,
                Stage::FindDirectory,
                Stage::SaveConfig,
                Stage::PrintDryRun,
            ],
            0
        )
    );
}

#[test]
fn status_comes_before_init() {
    let both = Flags {
        status: true,
        init: true,
        ..PLAIN
    };
    let (seen, code) = stages(Platform::Linux, both, false, false);
    assert_eq!(seen.last(), Some(&Stage::ShowStatus));
    assert_eq!(code, 0);
    let init = Flags { init: true, ..PLAIN };
    let (seen, code) = stages(Platform::Linux, init, false, false);
    assert_eq!(seen[3..], [Stage::SaveInitial, Stage::AnnounceSaved]);
    assert_eq!(code, 0);
}

#[test]
fn failures_end_the_run() {
    let run = Run::new(Platform::Linux).advance(Event::Failed);
    assert_eq!(run.stage, Stage::Failed);
    assert_eq!(run.exit_status(), Some(1));
    assert_eq!(run.advance(Event::Done), run);
    let loading = Run::new(Platform::Linux).advance(Event::Parsed(PLAIN));
    assert_eq!(loading.advance(Event::Failed), loading);
}

#[test]
fn complaints_name_the_step() {
    let at = |platform, stage| Run {
        stage,
        ..Run::new(platform)
    };
    assert_eq!(at(Platform::Linux, Stage::ParseArguments).complaint("no"), "no");
    assert_eq!(
        at(Platform::Linux, Stage::CreateHosts).complaint("no"),
        "Failed to create temp hosts file: no"
    );
    assert_eq!(
        at(Platform::Linux, Stage::FindDirectory).complaint("no"),
        "Cannot determine current directory: no"
    );
    assert_eq!(
        at(Platform::Linux, Stage::Spawn).complaint("no"),
        "Failed to start bwrap: no"
    );
    assert_eq!(
        at(Platform::MacOs, Stage::Spawn).complaint("no"),
        "Failed to start sandbox-exec: no"
    );
}

#[test]
fn announcements_are_made_at_their_steps() {
    let at = |stage| Run {
        stage,
        ..Run::new(Platform::MacOs)
    };
    assert_eq!(
        at(Stage::AnnounceSaved).announcement(b""),
        Some("Config saved to .ai-jail".to_string())
    );
    assert_eq!(
        at(Stage::NoteGpu).announcement(b""),
        Some("--no-gpu has no effect on macOS (Metal is system-level)".to_string())
    );
    assert_eq!(
        at(Stage::NoteDisplay).announcement(b""),
        Some("--no-display has no effect on macOS (Cocoa is system-level)".to_string())
    );
    assert_eq!(
        at(Stage::AnnounceJail).announcement(b"/a\xffb"),
        Some("Jail Active: /a\u{fffd}b".to_string())
    );
    assert_eq!(at(Stage::Spawn).announcement(b"/a"), None);
}

#[test]
fn hosts_file_is_named_after_the_process() {
    assert_eq!(hosts_file_name(0), "bwrap-hosts.0");
    assert_eq!(hosts_file_name(40917), "bwrap-hosts.40917");
    assert_eq!(hosts_file_name(u32::MAX), "bwrap-hosts.4294967295");
    assert_eq!(
        hosts_contents(),
        "127.0.0.1 localhost ai-sandbox\n::1       localhost ai-sandbox\n"
    );
}
