//! Running commands on a system.

use vstd::prelude::*;

verus! {

/// What a command printed and how it ended.
#[derive(Debug)]
pub struct CommandResult {
    pub stdout: String,
    pub stderr: String,
    pub exit_code: i32,
}

impl Default for CommandResult {
    fn default() -> (r: CommandResult)
        ensures
            r.stdout@ == Seq::<char>::empty(),
            r.stderr@ == Seq::<char>::empty(),
            r.exit_code == 0,
    {
        CommandResult { stdout: String::new(), stderr: String::new(), exit_code: 0 }
    }
}

/// A command was to run over SSH before a connection was made.
#[derive(Debug)]
pub struct UninitializedSshClientError;

} // verus!
