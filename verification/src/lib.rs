//! The sandboxing logic of `ai-jail`: which mounts and isolation flags a jailed
//! command gets, the exact command line that starts it, the text of a dry run,
//! and the order in which a run goes through its steps.
pub mod argument;
pub mod bwrap;
pub mod bwrap_laws;
pub mod config;
pub mod dry_run;
pub mod dry_run_laws;
pub mod hosts;
pub mod mounts;
pub mod path;
pub mod reader;
pub mod run;
pub mod run_laws;
pub mod sandbox;
pub mod sbpl;
pub mod sbpl_laws;
pub mod shell;
pub mod shell_laws;
pub mod text;
