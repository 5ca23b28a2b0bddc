//! The `lua` subcommand: a block, a file, or an interactive session.

use vstd::prelude::*;
use crate::cli::LuaArgs;

verus! {

/// How guest code is to be run.
#[derive(Debug, PartialEq, Eq)]
pub enum LuaRun {
    /// Execute this block of code, as the chunk named `cli`.
    Block(String),
    /// Execute the file at this path.
    File(String),
    /// Start an interactive session.
    Repl,
}

/// Mathematical view of a [`LuaRun`].
pub enum LuaRunModel {
    Block(Seq<char>),
    File(Seq<char>),
    Repl,
}

impl View for LuaRun {
    type V = LuaRunModel;

    open spec fn view(&self) -> LuaRunModel {
        match self {
            LuaRun::Block(b) => LuaRunModel::Block(b@),
            LuaRun::File(f) => LuaRunModel::File(f@),
            LuaRun::Repl => LuaRunModel::Repl,
        }
    }
}

/// A block wins over a file; with neither the session is interactive.
pub open spec fn run_of(args: LuaArgs) -> LuaRunModel {
    match args.block {
        Some(b) => LuaRunModel::Block(b@),
        None => match args.file {
            Some(f) => LuaRunModel::File(f@),
            None => LuaRunModel::Repl,
        },
    }
}

/// Decides how the `lua` subcommand runs guest code.
pub fn exec(args: LuaArgs) -> (run: LuaRun)
    ensures
        run@ == run_of(args),
{
    match args.block {
        Some(b) => LuaRun::Block(b),
        None => match args.file {
            Some(f) => LuaRun::File(f),
            None => LuaRun::Repl,
        },
    }
}

} // verus!
