//! Where the configuration and the data of the application live.
//!
//! Paths are text; the separator of the platform is handed in.

use vstd::prelude::*;
use crate::failure::{Failure, FailureModel};
use crate::text::{extend_str, is_suffix, string_of};

verus! {

/// The configuration of one run.
#[derive(Debug, Default)]
pub struct Config {
    /// The configuration file named on the command line, once it is set.
    pub override_path: Option<String>,
}

/// Where the configuration entry module is to be looked for.
#[derive(Debug, PartialEq, Eq)]
pub enum ModuleFile {
    /// The path was named by the user and is taken as it is.
    Given(String),
    /// The path is a default and counts only where a file is there.
    Probe(String),
}

/// Mathematical view of a [`ModuleFile`].
pub enum ModuleFileModel {
    Given(Seq<char>),
    Probe(Seq<char>),
}

impl View for ModuleFile {
    type V = ModuleFileModel;

    open spec fn view(&self) -> ModuleFileModel {
        match self {
            ModuleFile::Given(p) => ModuleFileModel::Given(p@),
            ModuleFile::Probe(p) => ModuleFileModel::Probe(p@),
        }
    }
}

/// `base` with the relative component `part` below it: the separator goes
/// between them unless `base` is empty or already ends with it.
pub open spec fn below(base: Seq<char>, part: Seq<char>, sep: Seq<char>) -> Seq<char> {
    if base.len() == 0 || is_suffix(sep, base) {
        base + part
    } else {
        base + sep + part
    }
}

/// The name of the application, as directories are named after it.
pub open spec fn app_name() -> Seq<char> {
    "dfim"@
}

/// The configuration directory: `$XDG_CONFIG_HOME` where it is set, else
/// `.config/dfim` below the home directory.
pub open spec fn config_dir_of(xdg: Option<Seq<char>>, home: Seq<char>, sep: Seq<char>) -> Seq<char> {
    match xdg {
        Some(d) => d,
        None => below(below(home, ".config"@, sep), app_name(), sep),
    }
}

/// The data directory: `$XDG_DATA_HOME` where it is set; else on Windows
/// `data` below the configuration directory, elsewhere `.local/share/dfim`
/// below the home directory.
pub open spec fn data_dir_of(
    xdg: Option<Seq<char>>,
    home: Seq<char>,
    config_dir: Seq<char>,
    windows: bool,
    sep: Seq<char>,
) -> Seq<char> {
    match xdg {
        Some(d) => d,
        None => if windows {
            below(config_dir, "data"@, sep)
        } else {
            below(below(below(home, ".local"@, sep), "share"@, sep), app_name(), sep)
        },
    }
}

/// Where the entry module is looked for: the override where one is set,
/// else the default that the build names, else `dfim.lua` in the
/// configuration directory.
pub open spec fn module_file_of(
    override_path: Option<Seq<char>>,
    build_default: Option<Seq<char>>,
    config_dir: Seq<char>,
    sep: Seq<char>,
) -> ModuleFileModel {
    match override_path {
        Some(p) => ModuleFileModel::Given(p),
        None => match build_default {
            Some(p) => ModuleFileModel::Probe(p),
            None => ModuleFileModel::Probe(below(config_dir, "dfim.lua"@, sep)),
        },
    }
}

/// Puts the relative component `part` below `base`.
pub fn join_path(base: &str, part: &str, sep: &str) -> (out: String)
    ensures
        out@ == below(base@, part@, sep@),
{
    let mut acc: Vec<char> = Vec::new();
    extend_str(&mut acc, base);
    if !base.is_empty() && !crate::text::ends_with(base, sep) {
        extend_str(&mut acc, sep);
    }
    extend_str(&mut acc, part);
    string_of(&acc)
}

/// The configuration directory.
pub fn config_dir(xdg_config_home: Option<String>, home: &str, sep: &str) -> (out: String)
    ensures
        out@ == config_dir_of(crate::cli::option_view(xdg_config_home), home@, sep@),
{
    match xdg_config_home {
        Some(d) => d,
        None => {
            let base = join_path(home, ".config", sep);
            join_path(base.as_str(), "dfim", sep)
        },
    }
}

/// The data directory.
pub fn data_dir(
    xdg_data_home: Option<String>,
    home: &str,
    config_dir: &str,
    windows: bool,
    sep: &str,
) -> (out: String)
    ensures
        out@ == data_dir_of(
            crate::cli::option_view(xdg_data_home),
            home@,
            config_dir@,
            windows,
            sep@,
        ),
{
    match xdg_data_home {
        Some(d) => d,
        None => {
            if windows {
                join_path(config_dir, "data", sep)
            } else {
                let local = join_path(home, ".local", sep);
                let share = join_path(local.as_str(), "share", sep);
                join_path(share.as_str(), "dfim", sep)
            }
        },
    }
}

/// The directory in which plugins are installed: `plugins` below the data
/// directory.
pub fn plugin_dir(data_dir: &str, sep: &str) -> (out: String)
    ensures
        out@ == below(data_dir@, "plugins"@, sep@),
{
    join_path(data_dir, "plugins", sep)
}

impl Config {
    /// A configuration without an override.
    pub fn new() -> (c: Config)
        ensures
            c.override_path is None,
    {
        Config { override_path: None }
    }

    /// Names the configuration file to use. This can be done once.
    pub fn set_override(&mut self, path: &str) -> (r: Result<(), Failure>)
        ensures
            old(self).override_path is Some ==> (r matches Err(e) && e@
                == FailureModel::OverrideAlreadySet) && *final(self) == *old(self),
            old(self).override_path is None ==> r is Ok && crate::cli::option_view(
                final(self).override_path,
            ) == Some(path@),
    {
        if self.override_path.is_some() {
            return Err(Failure::OverrideAlreadySet);
        }
        self.override_path = Some(path.to_owned());
        Ok(())
    }

    /// Where the configuration entry module is to be looked for.
    pub fn get_module_file(&self, build_default: Option<&str>, config_dir: &str, sep: &str) -> (out:
        ModuleFile)
        ensures
            out@ == module_file_of(
                crate::cli::option_view(self.override_path),
                match build_default {
                    Some(p) => Some(p@),
                    None => None,
                },
                config_dir@,
                sep@,
            ),
    {
        match &self.override_path {
            Some(p) => ModuleFile::Given(p.clone()),
            None => match build_default {
                Some(p) => ModuleFile::Probe(p.to_owned()),
                None => ModuleFile::Probe(join_path(config_dir, "dfim.lua", sep)),
            },
        }
    }
}

impl ModuleFile {
    /// The entry module, given whether a file is at the path: a path that
    /// was named is taken either way, a default only where the file is there.
    pub fn settle(self, is_file: bool) -> (out: Option<String>)
        ensures
            match self@ {
                ModuleFileModel::Given(p) => crate::cli::option_view(out) == Some(p),
                ModuleFileModel::Probe(p) => crate::cli::option_view(out) == if is_file {
                    Some(p)
                } else {
                    None
                },
            },
    {
        match self {
            ModuleFile::Given(p) => Some(p),
            ModuleFile::Probe(p) => if is_file {
                Some(p)
            } else {
                None
            },
        }
    }
}

} // verus!
