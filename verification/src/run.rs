//! The course of a run: which step comes next, and how the run ends.
use vstd::prelude::*;

use crate::config::is_set;
use crate::path::{display, path_display};

verus! {

/// The systems that a jail can run on.
#[derive(Clone, Copy, Debug, PartialEq, Eq, Structural)]
pub enum Platform {
    Linux,
    MacOs,
}

/// What the command line asks for, besides the settings of the jail.
#[derive(Clone, Copy, Debug, PartialEq, Eq, Structural)]
pub struct Flags {
    /// Leave the saved settings aside.
    pub clean: bool,
    /// Show the settings and stop.
    pub status: bool,
    /// Save the settings and stop.
    pub init: bool,
    /// Print the command of the jail and stop.
    pub dry_run: bool,
    /// Say more.
    pub verbose: bool,
}

/// The steps of a run, each named after what is to be done.
#[derive(Clone, Copy, Debug, PartialEq, Eq, Structural)]
pub enum Stage {
    ParseArguments,
    LoadConfig,
    MergeConfig,
    ShowStatus,
    SaveInitial,
    AnnounceSaved,
    CheckSandbox,
    CreateHosts,
    NoteGpu,
    NoteDisplay,
    FindDirectory,
    SaveConfig,
    PrintDryRun,
    AnnounceJail,
    InstallHandlers,
    Spawn,
    Wait,
    /// The run is over.
    Finished,
    /// The run is over because a step failed.
    Failed,
}

/// How a step went.
#[derive(Clone, Copy, Debug, PartialEq, Eq, Structural)]
pub enum Event {
    /// It succeeded, with nothing to report.
    Done,
    /// The command line was parsed.
    Parsed(Flags),
    /// The settings are complete.
    Merged { no_gpu: Option<bool>, no_display: Option<bool> },
    /// The jail is over.
    Exited(i32),
    /// It failed.
    Failed,
}

/// A run, as far as it has come.
#[derive(Clone, Copy, Debug, PartialEq, Eq, Structural)]
pub struct Run {
    pub platform: Platform,
    pub flags: Flags,
    pub no_gpu: bool,
    pub no_display: bool,
    /// The step that is to be done now.
    pub stage: Stage,
    pub exit_code: i32,
}

/// The steps after the sandbox was found to work, up to the working directory.
pub open spec fn preparation(platform: Platform, no_gpu: bool, no_display: bool) -> Seq<Stage> {
    match platform {
        Platform::Linux => seq![Stage::CreateHosts],
        Platform::MacOs => (if no_gpu {
            seq![Stage::NoteGpu]
        } else {
            Seq::empty()
        }) + (if no_display {
            seq![Stage::NoteDisplay]
        } else {
            Seq::empty()
        }),
    }
}

/// The steps of a run in which none fails, in their order.
pub open spec fn plan(platform: Platform, flags: Flags, no_gpu: bool, no_display: bool) -> Seq<
    Stage,
> {
    (if flags.clean {
        seq![Stage::ParseArguments, Stage::MergeConfig]
    } else {
        seq![Stage::ParseArguments, Stage::LoadConfig, Stage::MergeConfig]
    }) + (if flags.status {
        seq![Stage::ShowStatus]
    } else if flags.init {
        seq![Stage::SaveInitial, Stage::AnnounceSaved]
    } else {
        seq![Stage::CheckSandbox] + preparation(platform, no_gpu, no_display) + seq![
            Stage::FindDirectory,
            Stage::SaveConfig,
        ] + (if flags.dry_run {
            seq![Stage::PrintDryRun]
        } else {
            seq![Stage::AnnounceJail, Stage::InstallHandlers, Stage::Spawn, Stage::Wait]
        })
    })
}

/// Whether the step can fail.
pub open spec fn can_fail(stage: Stage) -> bool {
    stage is ParseArguments || stage is CheckSandbox || stage is CreateHosts
        || stage is FindDirectory || stage is Spawn
}

impl Run {
    /// The step after one that succeeded with nothing to report.
    pub open spec fn next(self) -> Stage {
        match self.stage {
            Stage::LoadConfig => Stage::MergeConfig,
            Stage::SaveInitial => Stage::AnnounceSaved,
            Stage::ShowStatus | Stage::AnnounceSaved | Stage::PrintDryRun => Stage::Finished,
            Stage::CheckSandbox => match self.platform {
                Platform::Linux => Stage::CreateHosts,
                Platform::MacOs => if self.no_gpu {
                    Stage::NoteGpu
                } else if self.no_display {
                    Stage::NoteDisplay
                } else {
                    Stage::FindDirectory
                },
            },
            Stage::NoteGpu => if self.no_display {
                Stage::NoteDisplay
            } else {
                Stage::FindDirectory
            },
            Stage::CreateHosts | Stage::NoteDisplay => Stage::FindDirectory,
            Stage::FindDirectory => Stage::SaveConfig,
            Stage::SaveConfig => if self.flags.dry_run {
                Stage::PrintDryRun
            } else {
                Stage::AnnounceJail
            },
            Stage::AnnounceJail => Stage::InstallHandlers,
            Stage::InstallHandlers => Stage::Spawn,
            Stage::Spawn => Stage::Wait,
            _ => self.stage,
        }
    }

    /// The run after an event. An event that does not belong to the step changes
    /// nothing.
    pub open spec fn after(self, event: Event) -> Run {
        match (self.stage, event) {
            (Stage::ParseArguments, Event::Parsed(flags)) => Run {
                flags,
                stage: if flags.clean {
                    Stage::MergeConfig
                } else {
                    Stage::LoadConfig
                },
                ..self
            },
            (Stage::MergeConfig, Event::Merged { no_gpu, no_display }) => Run {
                no_gpu: no_gpu == Some(true),
                no_display: no_display == Some(true),
                stage: if self.flags.status {
                    Stage::ShowStatus
                } else if self.flags.init {
                    Stage::SaveInitial
                } else {
                    Stage::CheckSandbox
                },
                ..self
            },
            (Stage::Wait, Event::Exited(code)) => Run {
                stage: Stage::Finished,
                exit_code: code,
                ..self
            },
            (_, Event::Done) => Run { stage: self.next(), ..self },
            (stage, Event::Failed) => if can_fail(stage) {
                Run { stage: Stage::Failed, exit_code: 1, ..self }
            } else {
                self
            },
            _ => self,
        }
    }

    /// A run that has not begun.
    pub fn new(platform: Platform) -> (run: Run)
        ensures
            run == Run::start(platform),
            run.platform == platform,
            run.stage is ParseArguments,
            run.exit_code == 0,
            !run.no_gpu && !run.no_display,
            !run.flags.clean && !run.flags.status && !run.flags.init && !run.flags.dry_run
                && !run.flags.verbose,
    {
        Run {
            platform,
            flags: Flags {
                clean: false,
                status: false,
                init: false,
                dry_run: false,
                verbose: false,
            },
            no_gpu: false,
            no_display: false,
            stage: Stage::ParseArguments,
            exit_code: 0,
        }
    }

    /// A run that has not begun.
    pub open spec fn start(platform: Platform) -> Run {
        Run {
            platform,
            flags: Flags {
                clean: false,
                status: false,
                init: false,
                dry_run: false,
                verbose: false,
            },
            no_gpu: false,
            no_display: false,
            stage: Stage::ParseArguments,
            exit_code: 0,
        }
    }

    /// The step after one that succeeded with nothing to report.
    fn next_stage(&self) -> (stage: Stage)
        ensures
            stage == self.next(),
    {
        match self.stage {
            Stage::LoadConfig => Stage::MergeConfig,
            Stage::SaveInitial => Stage::AnnounceSaved,
            Stage::ShowStatus | Stage::AnnounceSaved | Stage::PrintDryRun => Stage::Finished,
            Stage::CheckSandbox => match self.platform {
                Platform::Linux => Stage::CreateHosts,
                Platform::MacOs => if self.no_gpu {
                    Stage::NoteGpu
                } else if self.no_display {
                    Stage::NoteDisplay
                } else {
                    Stage::FindDirectory
                },
            },
            Stage::NoteGpu => if self.no_display {
                Stage::NoteDisplay
            } else {
                Stage::FindDirectory
            },
            Stage::CreateHosts | Stage::NoteDisplay => Stage::FindDirectory,
            Stage::FindDirectory => Stage::SaveConfig,
            Stage::SaveConfig => if self.flags.dry_run {
                Stage::PrintDryRun
            } else {
                Stage::AnnounceJail
            },
            Stage::AnnounceJail => Stage::InstallHandlers,
            Stage::InstallHandlers => Stage::Spawn,
            Stage::Spawn => Stage::Wait,
            _ => self.stage,
        }
    }

    /// The run after an event.
    pub fn advance(&self, event: Event) -> (run: Run)
        ensures
            run == self.after(event),
    {
        let mut run = *self;
        match (self.stage, event) {
            (Stage::ParseArguments, Event::Parsed(flags)) => {
                run.flags = flags;
                run.stage = if flags.clean {
                    Stage::MergeConfig
                } else {
                    Stage::LoadConfig
                };
            },
            (Stage::MergeConfig, Event::Merged { no_gpu, no_display }) => {
                run.no_gpu = is_set(no_gpu);
                run.no_display = is_set(no_display);
                run.stage = if self.flags.status {
                    Stage::ShowStatus
                } else if self.flags.init {
                    Stage::SaveInitial
                } else {
                    Stage::CheckSandbox
                };
            },
            (Stage::Wait, Event::Exited(code)) => {
                run.stage = Stage::Finished;
                run.exit_code = code;
            },
            (_, Event::Done) => {
                run.stage = self.next_stage();
            },
            (Stage::ParseArguments, Event::Failed)
            | (Stage::CheckSandbox, Event::Failed)
            | (Stage::CreateHosts, Event::Failed)
            | (Stage::FindDirectory, Event::Failed)
            | (Stage::Spawn, Event::Failed) => {
                run.stage = Stage::Failed;
                run.exit_code = 1;
            },
            _ => {},
        }
        run
    }

    /// The status to exit with, once the run is over.
    pub fn exit_status(&self) -> (status: Option<i32>)
        ensures
            status == (if self.stage is Finished || self.stage is Failed {
                Some(self.exit_code)
            } else {
                None
            }),
    {
        match self.stage {
            Stage::Finished | Stage::Failed => Some(self.exit_code),
            _ => None,
        }
    }

    /// What a step tells the user.
    pub open spec fn message(self, project_dir: Seq<u8>) -> Option<Seq<char>> {
        match self.stage {
            Stage::AnnounceSaved => Some("Config saved to .ai-jail"@),
            Stage::NoteGpu => Some("--no-gpu has no effect on macOS (Metal is system-level)"@),
            Stage::NoteDisplay => Some(
                "--no-display has no effect on macOS (Cocoa is system-level)"@,
            ),
            Stage::AnnounceJail => Some("Jail Active: "@ + display(project_dir)),
            _ => None,
        }
    }

    /// What the step tells the user, if it is one that does nothing else.
    pub fn announcement(&self, project_dir: &[u8]) -> (told: Option<String>)
        ensures
            match told {
                Some(text) => self.message(project_dir@) == Some(text@),
                None => self.message(project_dir@) is None,
            },
            told is Some <==> self.stage is AnnounceSaved || self.stage is NoteGpu
                || self.stage is NoteDisplay || self.stage is AnnounceJail,
            told matches Some(text) ==> {
                &&& self.stage is AnnounceSaved ==> text@ == "Config saved to .ai-jail"@
                &&& self.stage is NoteGpu ==> text@
                    == "--no-gpu has no effect on macOS (Metal is system-level)"@
                &&& self.stage is NoteDisplay ==> text@
                    == "--no-display has no effect on macOS (Cocoa is system-level)"@
                &&& self.stage is AnnounceJail ==> text@ == "Jail Active: "@ + display(project_dir@)
            },
    {
        match self.stage {
            Stage::AnnounceSaved => Some("Config saved to .ai-jail".to_owned()),
            Stage::NoteGpu => Some(
                "--no-gpu has no effect on macOS (Metal is system-level)".to_owned(),
            ),
            Stage::NoteDisplay => Some(
                "--no-display has no effect on macOS (Cocoa is system-level)".to_owned(),
            ),
            Stage::AnnounceJail => {
                let mut text = "Jail Active: ".to_owned();
                let dir = path_display(project_dir);
                text.append(dir.as_str());
                Some(text)
            },
            _ => None,
        }
    }

    /// What the user is told when the step fails.
    pub open spec fn complaint_text(self, reason: Seq<char>) -> Seq<char> {
        match self.stage {
            Stage::CreateHosts => "Failed to create temp hosts file: "@ + reason,
            Stage::FindDirectory => "Cannot determine current directory: "@ + reason,
            Stage::Spawn => match self.platform {
                Platform::Linux => "Failed to start bwrap: "@ + reason,
                Platform::MacOs => "Failed to start sandbox-exec: "@ + reason,
            },
            _ => reason,
        }
    }

    /// What the user is told when the step fails for the given reason.
    pub fn complaint(&self, reason: &str) -> (text: String)
        ensures
            text@ == self.complaint_text(reason@),
            self.stage is CreateHosts ==> text@ == "Failed to create temp hosts file: "@ + reason@,
            self.stage is FindDirectory ==> text@ == "Cannot determine current directory: "@
                + reason@,
            self.stage is Spawn && self.platform is Linux ==> text@ == "Failed to start bwrap: "@
                + reason@,
            self.stage is Spawn && self.platform is MacOs ==> text@
                == "Failed to start sandbox-exec: "@ + reason@,
            !(self.stage is CreateHosts || self.stage is FindDirectory || self.stage is Spawn)
                ==> text@ == reason@,
    {
        let mut text = match self.stage {
            Stage::CreateHosts => "Failed to create temp hosts file: ".to_owned(),
            Stage::FindDirectory => "Cannot determine current directory: ".to_owned(),
            Stage::Spawn => match self.platform {
                Platform::Linux => "Failed to start bwrap: ".to_owned(),
                Platform::MacOs => "Failed to start sandbox-exec: ".to_owned(),
            },
            _ => String::new(),
        };
        text.append(reason);
        assert(text@ =~= self.complaint_text(reason@));
        text
    }
}

/// How a step goes that does not fail, in a run with the given command line, settings
/// and end of the jail.
pub open spec fn success(
    stage: Stage,
    flags: Flags,
    no_gpu: Option<bool>,
    no_display: Option<bool>,
    code: i32,
) -> Event {
    match stage {
        Stage::ParseArguments => Event::Parsed(flags),
        Stage::MergeConfig => Event::Merged { no_gpu, no_display },
        Stage::Wait => Event::Exited(code),
        _ => Event::Done,
    }
}

/// A run after `steps` steps that did not fail.
pub open spec fn run_after(
    platform: Platform,
    flags: Flags,
    no_gpu: Option<bool>,
    no_display: Option<bool>,
    code: i32,
    steps: nat,
) -> Run
    decreases steps,
{
    if steps == 0 {
        Run::start(platform)
    } else {
        let run = run_after(platform, flags, no_gpu, no_display, code, (steps - 1) as nat);
        run.after(success(run.stage, flags, no_gpu, no_display, code))
    }
}

/// Whether a jail is started at the end of the plan.
pub open spec fn starts_jail(flags: Flags) -> bool {
    !flags.status && !flags.init && !flags.dry_run
}

/// The step after each one of the plan is the next of the plan, and the plan ends as a
/// run does.
proof fn plan_is_connected(run: Run, k: int)
    requires
        0 <= k < plan(run.platform, run.flags, run.no_gpu, run.no_display).len(),
        run.stage == plan(run.platform, run.flags, run.no_gpu, run.no_display)[k],
        !(run.stage is ParseArguments),
        !(run.stage is MergeConfig),
        !(run.stage is Wait),
    ensures
        run.next() == (if k + 1 < plan(
            run.platform,
            run.flags,
            run.no_gpu,
            run.no_display,
        ).len() {
            plan(run.platform, run.flags, run.no_gpu, run.no_display)[k + 1]
        } else {
            Stage::Finished
        }),
{
}

/// Where the steps stand that report something, and what follows them.
proof fn plan_has_shape(platform: Platform, flags: Flags, no_gpu: bool, no_display: bool)
    ensures
        ({
            let stages = plan(platform, flags, no_gpu, no_display);
            let merge = merge_place(flags);
            &&& merge + 1 < stages.len()
            &&& stages[0] is ParseArguments
            &&& stages[1] == (if flags.clean {
                Stage::MergeConfig
            } else {
                Stage::LoadConfig
            })
            &&& stages[merge] is MergeConfig
            &&& stages[merge + 1] == (if flags.status {
                Stage::ShowStatus
            } else if flags.init {
                Stage::SaveInitial
            } else {
                Stage::CheckSandbox
            })
            &&& forall|k: int|
                merge < k < stages.len() ==> !((#[trigger] stages[k]) is ParseArguments)
                    && !(stages[k] is LoadConfig) && !(stages[k] is MergeConfig)
            &&& forall|k: int|
                0 <= k < stages.len() ==> ((#[trigger] stages[k]) is Wait <==> starts_jail(flags)
                    && k == stages.len() - 1)
        }),
{
}

/// The place of the step that completes the settings.
spec fn merge_place(flags: Flags) -> int {
    if flags.clean {
        1
    } else {
        2
    }
}

/// What a run knows after `steps` steps that did not fail, where `stages` is its plan.
spec fn knows(
    run: Run,
    stages: Seq<Stage>,
    platform: Platform,
    flags: Flags,
    no_gpu: bool,
    no_display: bool,
    code: i32,
    steps: int,
) -> bool {
    &&& run.platform == platform
    &&& steps >= 1 ==> run.flags == flags
    &&& steps > merge_place(flags) ==> run.no_gpu == no_gpu && run.no_display == no_display
    &&& steps < stages.len() ==> run.stage == stages[steps] && run.exit_code == 0
    &&& steps == stages.len() ==> run.stage is Finished && run.exit_code == (if starts_jail(
        flags,
    ) {
        code
    } else {
        0
    })
}

/// A run knows what it should after every number of steps that did not fail.
proof fn run_knows(
    platform: Platform,
    flags: Flags,
    no_gpu: Option<bool>,
    no_display: Option<bool>,
    code: i32,
    steps: nat,
)
    requires
        steps <= plan(platform, flags, no_gpu == Some(true), no_display == Some(true)).len(),
    ensures
        knows(
            run_after(platform, flags, no_gpu, no_display, code, steps),
            plan(platform, flags, no_gpu == Some(true), no_display == Some(true)),
            platform,
            flags,
            no_gpu == Some(true),
            no_display == Some(true),
            code,
            steps as int,
        ),
    decreases steps,
{
    let gpu = no_gpu == Some(true);
    let display = no_display == Some(true);
    let stages = plan(platform, flags, gpu, display);
    plan_has_shape(platform, flags, gpu, display);
    if steps > 0 {
        let k = steps - 1;
        let before = run_after(platform, flags, no_gpu, no_display, code, k as nat);
        run_knows(platform, flags, no_gpu, no_display, code, k as nat);
        step_is_known(before, stages, platform, flags, no_gpu, no_display, code, k);
    }
}

/// One step more keeps what a run knows.
proof fn step_is_known(
    run: Run,
    stages: Seq<Stage>,
    platform: Platform,
    flags: Flags,
    no_gpu: Option<bool>,
    no_display: Option<bool>,
    code: i32,
    k: int,
)
    requires
        stages == plan(platform, flags, no_gpu == Some(true), no_display == Some(true)),
        0 <= k < stages.len(),
        knows(
            run,
            stages,
            platform,
            flags,
            no_gpu == Some(true),
            no_display == Some(true),
            code,
            k,
        ),
    ensures
        knows(
            run.after(success(run.stage, flags, no_gpu, no_display, code)),
            stages,
            platform,
            flags,
            no_gpu == Some(true),
            no_display == Some(true),
            code,
            k + 1,
        ),
{
    plan_has_shape(platform, flags, no_gpu == Some(true), no_display == Some(true));
    if k > merge_place(flags) && !(run.stage is Wait) {
        plan_is_connected(run, k);
    }
}

/// Where no step fails, a run goes through the plan step by step and then is over. It
/// exits with the status of the jail if it started one, and with zero otherwise.
pub proof fn run_follows_the_plan(
    platform: Platform,
    flags: Flags,
    no_gpu: Option<bool>,
    no_display: Option<bool>,
    code: i32,
    steps: nat,
)
    requires
        steps <= plan(platform, flags, no_gpu == Some(true), no_display == Some(true)).len(),
    ensures
        ({
            let stages = plan(platform, flags, no_gpu == Some(true), no_display == Some(true));
            let run = run_after(platform, flags, no_gpu, no_display, code, steps);
            if steps < stages.len() {
                run.stage == stages[steps as int]
            } else {
                run.stage is Finished && run.exit_code == (if starts_jail(flags) {
                    code
                } else {
                    0
                })
            }
        }),
{
    run_knows(platform, flags, no_gpu, no_display, code, steps);
}

/// A step that can fail ends the run when it does, with status one, and nothing
/// happens in a run that is over.
pub proof fn failure_ends_the_run(run: Run, event: Event)
    ensures
        can_fail(run.stage) ==> run.after(Event::Failed).stage is Failed && run.after(
            Event::Failed,
        ).exit_code == 1,
        run.stage is Finished || run.stage is Failed ==> run.after(event) == run,
{
}

/// A jail is started by a run that is asked neither for the status, nor to save the
/// settings only, nor for a dry run; and only after the sandbox was checked and the
/// settings were saved.
pub proof fn only_a_full_run_starts_a_jail(
    platform: Platform,
    flags: Flags,
    no_gpu: bool,
    no_display: bool,
)
    ensures
        plan(platform, flags, no_gpu, no_display).contains(Stage::Spawn) <==> starts_jail(flags),
        forall|k: int|
            0 <= k < plan(platform, flags, no_gpu, no_display).len() && #[trigger] plan(
                platform,
                flags,
                no_gpu,
                no_display,
            )[k] is Spawn ==> {
                let earlier = plan(platform, flags, no_gpu, no_display).take(k);
                &&& earlier.contains(Stage::CheckSandbox)
                &&& earlier.contains(Stage::SaveConfig)
            },
{
    let stages = plan(platform, flags, no_gpu, no_display);
    let n = stages.len() as int;
    if starts_jail(flags) {
        assert(stages[n - 2] is Spawn);
        assert forall|k: int| 0 <= k < n && #[trigger] stages[k] is Spawn implies stages.take(
            k,
        ).contains(Stage::CheckSandbox) && stages.take(k).contains(Stage::SaveConfig) by {
            let check: int = if flags.clean {
                2
            } else {
                3
            };
            assert(stages.take(k)[check] == Stage::CheckSandbox);
            assert(stages.take(k)[n - 5] == Stage::SaveConfig);
        }
    }
}

/// The settings are saved by every run but one that is asked for the status.
pub proof fn every_run_but_status_saves(
    platform: Platform,
    flags: Flags,
    no_gpu: bool,
    no_display: bool,
)
    ensures
        plan(platform, flags, no_gpu, no_display).contains(Stage::SaveInitial) || plan(
            platform,
            flags,
            no_gpu,
            no_display,
        ).contains(Stage::SaveConfig) <==> !flags.status,
{
    let stages = plan(platform, flags, no_gpu, no_display);
    let n = stages.len() as int;
    if !flags.status {
        if flags.init {
            assert(stages[n - 2] is SaveInitial);
        } else if flags.dry_run {
            assert(stages[n - 2] is SaveConfig);
        } else {
            assert(stages[n - 5] is SaveConfig);
        }
    }
}

} // verus!
