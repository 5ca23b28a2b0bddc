//! The parsed command line, and the version banner.

use vstd::prelude::*;
use crate::text::{extend_str, join, join_strings, string_of, views};

verus! {

/// The parsed command line.
#[derive(Debug)]
pub struct Cli {
    pub command: Option<Commands>,
    /// Override the configuration file path.
    pub config_path: Option<String>,
    /// Suppress all output.
    pub quiet: bool,
    /// Use verbose output (given more than once for more).
    pub verbose: u8,
    /// Show help information.
    pub help: Option<bool>,
    /// Show version information.
    pub version: bool,
}

/// The subcommands.
#[derive(Debug)]
pub enum Commands {
    /// Execute guest code by block, by file, or interactively.
    Lua(LuaArgs),
    /// Show version information.
    Version,
}

/// The arguments of the `lua` subcommand.
#[derive(Debug)]
pub struct LuaArgs {
    /// Execute a block of guest code.
    pub block: Option<String>,
    /// Execute a guest source file.
    pub file: Option<String>,
}

/// What the build recorded about itself.
#[derive(Debug)]
pub struct BuildInfo {
    pub name: String,
    pub version: String,
    pub sha_short: Option<String>,
    pub sha: Option<String>,
    pub commit_date: String,
    pub target: String,
    pub debug: bool,
    pub opt_level: String,
}

/// Mathematical view of a [`BuildInfo`].
pub struct BuildModel {
    pub name: Seq<char>,
    pub version: Seq<char>,
    pub sha_short: Option<Seq<char>>,
    pub sha: Option<Seq<char>>,
    pub commit_date: Seq<char>,
    pub target: Seq<char>,
    pub debug: bool,
    pub opt_level: Seq<char>,
}

/// The view of an optional string.
pub open spec fn option_view(s: Option<String>) -> Option<Seq<char>> {
    match s {
        Some(x) => Some(x@),
        None => None,
    }
}

impl View for BuildInfo {
    type V = BuildModel;

    open spec fn view(&self) -> BuildModel {
        BuildModel {
            name: self.name@,
            version: self.version@,
            sha_short: option_view(self.sha_short),
            sha: option_view(self.sha),
            commit_date: self.commit_date@,
            target: self.target@,
            debug: self.debug,
            opt_level: self.opt_level@,
        }
    }
}

/// The first line of the banner: name and version, and the short commit
/// hash with the commit date where the build knows them.
pub open spec fn headline(b: BuildModel) -> Seq<char> {
    match b.sha_short {
        Some(sha) => b.name + " "@ + b.version + " ("@ + sha + " "@ + b.commit_date + ")"@,
        None => b.name + " "@ + b.version,
    }
}

/// The name of the build profile.
pub open spec fn profile(debug: bool) -> Seq<char> {
    if debug {
        "debug"@
    } else {
        "release"@
    }
}

/// The lines that a verbose banner adds.
pub open spec fn details(b: BuildModel) -> Seq<Seq<char>> {
    let commit = match b.sha {
        Some(sha) => seq!["commit-hash: "@ + sha, "commit-date: "@ + b.commit_date],
        None => Seq::empty(),
    };
    commit + seq![
        "build-target: "@ + b.target,
        "build-type: "@ + profile(b.debug) + " (opt="@ + b.opt_level + ")"@,
    ]
}

/// The lines of the banner.
pub open spec fn banner_lines(verbose: u8, b: BuildModel) -> Seq<Seq<char>> {
    if verbose > 0 {
        seq![headline(b)] + details(b)
    } else {
        seq![headline(b)]
    }
}

fn headline_text(build: &BuildInfo) -> (out: String)
    ensures
        out@ == headline(build@),
{
    let mut acc: Vec<char> = Vec::new();
    extend_str(&mut acc, build.name.as_str());
    extend_str(&mut acc, " ");
    extend_str(&mut acc, build.version.as_str());
    match &build.sha_short {
        Some(sha) => {
            extend_str(&mut acc, " (");
            extend_str(&mut acc, sha.as_str());
            extend_str(&mut acc, " ");
            extend_str(&mut acc, build.commit_date.as_str());
            extend_str(&mut acc, ")");
        },
        None => {},
    }
    assert(acc@ == headline(build@));
    string_of(&acc)
}

fn labelled(label: &str, value: &str) -> (out: String)
    ensures
        out@ == label@ + value@,
{
    crate::text::concat_text(label, value)
}

fn build_type_text(build: &BuildInfo) -> (out: String)
    ensures
        out@ == "build-type: "@ + profile(build.debug) + " (opt="@ + build.opt_level@ + ")"@,
{
    let mut acc: Vec<char> = Vec::new();
    extend_str(&mut acc, "build-type: ");
    if build.debug {
        extend_str(&mut acc, "debug");
    } else {
        extend_str(&mut acc, "release");
    }
    extend_str(&mut acc, " (opt=");
    extend_str(&mut acc, build.opt_level.as_str());
    extend_str(&mut acc, ")");
    assert(acc@ == "build-type: "@ + profile(build.debug) + " (opt="@ + build.opt_level@ + ")"@);
    string_of(&acc)
}

impl Cli {
    /// The version banner: one line, or with `verbose` the build details
    /// below it, one per line.
    pub fn version_string(&self, build: &BuildInfo) -> (out: String)
        ensures
            out@ == join(banner_lines(self.verbose, build@), "\n"@),
    {
        let mut lines: Vec<String> = Vec::new();
        lines.push(headline_text(build));
        assert(views(lines@) == seq![headline(build@)]);
        if self.verbose > 0 {
            match &build.sha {
                Some(sha) => {
                    lines.push(labelled("commit-hash: ", sha.as_str()));
                    lines.push(labelled("commit-date: ", build.commit_date.as_str()));
                },
                None => {},
            }
            lines.push(labelled("build-target: ", build.target.as_str()));
            lines.push(build_type_text(build));
            assert(views(lines@) == banner_lines(self.verbose, build@));
        }
        join_strings(&lines, "\n")
    }
}

} // verus!
