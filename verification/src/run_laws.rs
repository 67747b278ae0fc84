//! What every run must satisfy, however its steps go.
use vstd::prelude::*;

use crate::run::{Event, Platform, Run, Stage};

verus! {

/// A run enters a step only from the step before it, and only by the event that ends that
/// one: the settings are loaded unless they are left aside, the status and the saving of
/// the settings come before any check, and a jail is started last, after the sandbox was
/// checked, the directory found, the settings saved and the handlers installed. A run is
/// finished where nothing is left to do, and fails only in a step that can fail.
pub proof fn step_is_entered_from_the_one_before(run: Run, event: Event)
    requires
        run.after(event).stage != run.stage,
    ensures
        match run.after(event).stage {
            Stage::ParseArguments => false,
            Stage::LoadConfig => run.stage is ParseArguments && (event matches Event::Parsed(flags)
                && !flags.clean),
            Stage::MergeConfig => {
                ||| run.stage is ParseArguments && (event matches Event::Parsed(flags)
                    && flags.clean)
                ||| run.stage is LoadConfig && event is Done
            },
            Stage::ShowStatus => run.stage is MergeConfig && event is Merged && run.flags.status,
            Stage::SaveInitial => run.stage is MergeConfig && event is Merged && !run.flags.status
                && run.flags.init,
            Stage::AnnounceSaved => run.stage is SaveInitial && event is Done,
            Stage::CheckSandbox => run.stage is MergeConfig && event is Merged && !run.flags.status
                && !run.flags.init,
            Stage::CreateHosts => run.stage is CheckSandbox && event is Done
                && run.platform is Linux,
            Stage::NoteGpu => run.stage is CheckSandbox && event is Done && run.platform is MacOs
                && run.no_gpu,
            Stage::NoteDisplay => event is Done && run.no_display && (run.stage is NoteGpu
                || run.stage is CheckSandbox && run.platform is MacOs && !run.no_gpu),
            Stage::FindDirectory => event is Done && (run.stage is CreateHosts
                || run.stage is NoteDisplay || run.stage is NoteGpu && !run.no_display
                || run.stage is CheckSandbox && run.platform is MacOs && !run.no_gpu
                && !run.no_display),
            Stage::SaveConfig => run.stage is FindDirectory && event is Done,
            Stage::PrintDryRun => run.stage is SaveConfig && event is Done && run.flags.dry_run,
            Stage::AnnounceJail => run.stage is SaveConfig && event is Done && !run.flags.dry_run,
            Stage::InstallHandlers => run.stage is AnnounceJail && event is Done,
            Stage::Spawn => run.stage is InstallHandlers && event is Done,
            Stage::Wait => run.stage is Spawn && event is Done,
            Stage::Finished => {
                ||| event is Done && (run.stage is ShowStatus || run.stage is AnnounceSaved
                    || run.stage is PrintDryRun)
                ||| run.stage is Wait && event is Exited
            },
            Stage::Failed => event is Failed && (run.stage is ParseArguments
                || run.stage is CheckSandbox || run.stage is CreateHosts
                || run.stage is FindDirectory || run.stage is Spawn),
        },
{
}

/// A step that succeeds is over: a run stays in none of them.
pub proof fn success_leads_on(run: Run, event: Event)
    requires
        !(run.stage is Finished || run.stage is Failed),
        match run.stage {
            Stage::ParseArguments => event is Parsed,
            Stage::MergeConfig => event is Merged,
            Stage::Wait => event is Exited,
            _ => event is Done,
        },
    ensures
        run.after(event).stage != run.stage,
        !(run.after(event).stage is Failed),
{
}

/// A step that fails ends the run, with status one, where it can fail; where it cannot, a
/// failure changes nothing.
pub proof fn failure_is_reported(run: Run)
    ensures
        ({
            let failed = run.after(Event::Failed);
            if run.stage is ParseArguments || run.stage is CheckSandbox || run.stage is CreateHosts
                || run.stage is FindDirectory || run.stage is Spawn {
                failed.stage is Failed && failed.exit_code == 1
            } else {
                failed == run
            }
        }),
{
}

/// What a run knows changes only where it is reported: the flags when the command line was
/// parsed, the switches when the settings are complete, and the status when the jail is
/// over or a step failed.
pub proof fn run_remembers(run: Run, event: Event)
    ensures
        run.after(event).platform == run.platform,
        run.after(event).flags == (match event {
            Event::Parsed(flags) if run.stage is ParseArguments => flags,
            _ => run.flags,
        }),
        run.after(event).no_gpu == (match event {
            Event::Merged { no_gpu, .. } if run.stage is MergeConfig => no_gpu == Some(true),
            _ => run.no_gpu,
        }),
        run.after(event).no_display == (match event {
            Event::Merged { no_display, .. } if run.stage is MergeConfig => no_display == Some(
                true,
            ),
            _ => run.no_display,
        }),
        run.after(event).exit_code == (match event {
            Event::Exited(code) if run.stage is Wait => code,
            Event::Failed if !(run.after(event).stage == run.stage) => 1,
            _ => run.exit_code,
        }),
{
}

/// A run that is over stays as it is.
pub proof fn end_is_final(run: Run, event: Event)
    requires
        run.stage is Finished || run.stage is Failed,
    ensures
        run.after(event) == run,
{
}

/// The run after a list of events.
pub open spec fn after_all(run: Run, events: Seq<Event>) -> Run
    decreases events.len(),
{
    if events.len() == 0 {
        run
    } else {
        after_all(run, events.drop_last()).after(events.last())
    }
}

/// Whatever happens, a run is waiting for a jail only where it has spawned one, and has
/// done so only where it was asked neither for the status, nor to save the settings only,
/// nor for a dry run; a run that is not over has status zero.
pub proof fn jail_is_started_only_when_asked_for(platform: Platform, events: Seq<Event>)
    ensures
        ({
            let run = after_all(Run::start(platform), events);
            &&& run.platform == platform
            &&& run.stage is Spawn || run.stage is Wait || run.stage is InstallHandlers
                || run.stage is AnnounceJail ==> !run.flags.status && !run.flags.init
                && !run.flags.dry_run
            &&& run.stage is Spawn || run.stage is Wait || run.stage is SaveConfig
                || run.stage is FindDirectory || run.stage is CheckSandbox ==> !run.flags.status
                && !run.flags.init
            &&& run.stage is ShowStatus ==> run.flags.status
            &&& run.stage is PrintDryRun ==> run.flags.dry_run
            &&& run.stage is CreateHosts ==> platform is Linux
            &&& run.stage is NoteGpu ==> platform is MacOs && run.no_gpu
            &&& run.stage is NoteDisplay ==> platform is MacOs && run.no_display
            &&& !(run.stage is Finished || run.stage is Failed) ==> run.exit_code == 0
            &&& run.stage is Failed ==> run.exit_code == 1
        }),
{
    course_stays_sound(platform, events);
}

/// What holds of every run that began with [`Run::start`].
spec fn is_sound(run: Run, platform: Platform) -> bool {
    &&& run.platform == platform
    &&& !(run.stage is Finished || run.stage is Failed) ==> run.exit_code == 0
    &&& run.stage is Failed ==> run.exit_code == 1
    &&& run.stage is ShowStatus ==> run.flags.status
    &&& run.stage is CreateHosts ==> platform is Linux && !run.flags.status && !run.flags.init
    &&& run.stage is NoteGpu ==> platform is MacOs && run.no_gpu && !run.flags.status
        && !run.flags.init
    &&& run.stage is NoteDisplay ==> platform is MacOs && run.no_display && !run.flags.status
        && !run.flags.init
    &&& run.stage is CheckSandbox || run.stage is FindDirectory || run.stage is SaveConfig
        ==> !run.flags.status && !run.flags.init
    &&& run.stage is PrintDryRun ==> run.flags.dry_run
    &&& run.stage is AnnounceJail || run.stage is InstallHandlers || run.stage is Spawn
        || run.stage is Wait ==> !run.flags.status && !run.flags.init && !run.flags.dry_run
}

/// Every run that began with [`Run::start`] is sound.
proof fn course_stays_sound(platform: Platform, events: Seq<Event>)
    ensures
        is_sound(after_all(Run::start(platform), events), platform),
    decreases events.len(),
{
    if events.len() > 0 {
        course_stays_sound(platform, events.drop_last());
    }
}

} // verus!
