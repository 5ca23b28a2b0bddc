//! What a parsed command line asks for.

use vstd::prelude::*;
use crate::cli::{banner_lines, BuildInfo, Cli, Commands};
use crate::text::join;

pub mod lua;

verus! {

/// What the program is to do.
#[derive(Debug, PartialEq, Eq)]
pub enum Run {
    /// Run guest code, as the `lua` subcommand says.
    Lua(lua::LuaRun),
    /// Print the version banner that is carried along.
    Version(String),
}

/// Mathematical view of a [`Run`].
pub enum RunModel {
    Lua(lua::LuaRunModel),
    Version(Seq<char>),
}

impl View for Run {
    type V = RunModel;

    open spec fn view(&self) -> RunModel {
        match self {
            Run::Lua(r) => RunModel::Lua(r@),
            Run::Version(s) => RunModel::Version(s@),
        }
    }
}

/// What a subcommand asks for.
pub open spec fn run_of(args: Cli, build: BuildInfo) -> RunModel {
    match args.command {
        Some(Commands::Lua(a)) => RunModel::Lua(lua::run_of(a)),
        _ => RunModel::Version(join(banner_lines(args.verbose, build@), "\n"@)),
    }
}

/// Decides what the subcommand on the command line asks for. A command
/// line without a subcommand is not handled here.
pub fn exec(args: Cli, build: &BuildInfo) -> (run: Run)
    requires
        args.command is Some,
    ensures
        run@ == run_of(args, *build),
{
    let banner = args.version_string(build);
    match args.command {
        Some(Commands::Lua(a)) => Run::Lua(lua::exec(a)),
        _ => Run::Version(banner),
    }
}

} // verus!
