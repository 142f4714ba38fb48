//! The operator-facing configuration record. The surrounding program owns
//! the actual command-line parsing and hands the result over as plain
//! values; the cooldown string it receives is turned into nanoseconds by
//! [`crate::duration::parse_duration`].

use vstd::prelude::*;

use crate::process_executor::ProcessConfiguration;

verus! {

/// What the operator asks for: the executable to supervise, the cooldown
/// (in nanoseconds) before restarting it after an unexpected exit, and the
/// extra arguments handed to it on every launch.
#[derive(Clone, Debug)]
pub struct Cli {
    pub path: String,
    pub restart_delay: u64,
    pub binary_args: Vec<String>,
}

impl Cli {
    /// The supervisor configuration this command line denotes: every field
    /// is carried over, and both optional settings are considered set.
    pub fn into_configuration(self) -> (c: ProcessConfiguration)
        ensures
            c.path == self.path,
            c.args == Some(self.binary_args),
            c.restart_delay == Some(self.restart_delay),
    {
        ProcessConfiguration {
            path: self.path,
            args: Some(self.binary_args),
            restart_delay: Some(self.restart_delay),
        }
    }
}

} // verus!
