//! What running a shell command gives.

use vstd::prelude::*;

verus! {

/// The output of a shell command.
#[derive(Debug, Clone)]
pub struct CommandResult {
    pub stdout: String,
    pub stderr: String,
    pub exit_code: i32,
}

/// Runs shell commands for the tools. An implementation checks the command
/// and the working directory against the session's permissions, runs the
/// command, and returns its output, or a message saying why it did not run.
pub trait Executor {
    fn execute(&self, command: String, working_dir: Option<String>) -> Result<CommandResult, String>;
}

/// The exit code to report: the process's own, or -1 when it has none
/// (it was ended by a signal).
pub fn exit_code_of(code: Option<i32>) -> (c: i32)
    ensures
        c == match code {
            Some(x) => x as int,
            None => -1int,
        },
{
    match code {
        Some(x) => x,
        None => -1,
    }
}

} // verus!
