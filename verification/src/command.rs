//! The command a service runs: program, arguments and environment.

use vstd::prelude::*;

verus! {

/// A program invocation.
#[derive(Debug)]
pub struct Command {
    /// path of the program to run
    pub command: String,
    /// its arguments, in order
    pub args: Vec<String>,
    /// extra environment entries, when any are set
    pub env: Option<Vec<(String, String)>>,
}

impl Command {
    /// A command with arguments and no extra environment.
    pub fn new(command: &str, args: Vec<String>) -> (r: Command)
        ensures
            r.command@ == command@,
            r.args == args,
            r.env is None,
    {
        Command { command: command.to_owned(), args, env: None }
    }
}

} // verus!
