//! What the user asked for.
use vstd::prelude::*;

verus! {

/// The settings of a jail. Paths are the bytes that the operating system knows
/// them by. A switch that is absent counts as off.
#[derive(Clone, Debug)]
pub struct Config {
    /// The command to run, program first; empty for an interactive shell.
    pub command: Vec<String>,
    /// Further paths that the jail may read and write.
    pub rw_maps: Vec<Vec<u8>>,
    /// Further paths that the jail may read.
    pub ro_maps: Vec<Vec<u8>>,
    pub no_gpu: Option<bool>,
    pub no_docker: Option<bool>,
    pub no_display: Option<bool>,
    pub no_mise: Option<bool>,
}

impl Default for Config {
    fn default() -> (config: Config)
        ensures
            config.command@ == Seq::<String>::empty(),
            config.rw_maps@ == Seq::<Vec<u8>>::empty(),
            config.ro_maps@ == Seq::<Vec<u8>>::empty(),
            config.no_gpu is None,
            config.no_docker is None,
            config.no_display is None,
            config.no_mise is None,
    {
        Config {
            command: Vec::new(),
            rw_maps: Vec::new(),
            ro_maps: Vec::new(),
            no_gpu: None,
            no_docker: None,
            no_display: None,
            no_mise: None,
        }
    }
}

/// Whether a switch is set.
pub fn is_set(switch: Option<bool>) -> (set: bool)
    ensures
        set <==> switch == Some(true),
{
    match switch {
        Some(on) => on,
        None => false,
    }
}

} // verus!
