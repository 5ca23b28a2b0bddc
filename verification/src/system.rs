//! Running a command for guest code: what is decided before the child
//! process is started.

use vstd::prelude::*;
use crate::failure::{Failure, FailureModel};
use crate::text::views;

verus! {

/// A command line, parted into the program and its arguments.
#[derive(Debug, PartialEq, Eq)]
pub struct Command {
    pub program: String,
    pub args: Vec<String>,
}

/// How the environment of the child is made.
#[derive(Debug, PartialEq, Eq)]
pub struct RunOptions {
    /// The working directory of the child, where one is named.
    pub cwd: Option<String>,
    /// Variables to set for the child, as pairs of name and value.
    pub env: Vec<(String, String)>,
    /// Whether the child starts without the variables of its parent.
    pub clear_env: Option<bool>,
}

/// Whether the child starts without the variables of its parent: only
/// where the options say so.
pub open spec fn clears_env(clear_env: Option<bool>) -> bool {
    clear_env == Some(true)
}

/// Parts a command line into the program and its arguments. A command
/// line without a program is refused.
pub fn spawn(args: Vec<String>) -> (r: Result<Command, Failure>)
    ensures
        args@.len() == 0 ==> (r matches Err(e) && e@ == FailureModel::EmptyCommand),
        args@.len() > 0 ==> (r matches Ok(c) && c.program@ == args@[0]@ && views(c.args@) == views(
            args@,
        ).drop_first()),
{
    let mut rest = args;
    if rest.len() == 0 {
        return Err(Failure::EmptyCommand);
    }
    let ghost all = rest@;
    let program = rest.remove(0);
    assert(views(rest@) == views(all).drop_first());
    Ok(Command { program, args: rest })
}

impl RunOptions {
    /// Whether the child starts without the variables of its parent.
    pub fn clears_environment(&self) -> (r: bool)
        ensures
            r == clears_env(self.clear_env),
    {
        match self.clear_env {
            Some(b) => b,
            None => false,
        }
    }
}

} // verus!
