//! Resolution of a module name among the installed plugins.
//!
//! Each immediate subdirectory of the plugin root is one plugin. For a
//! requested module `a.b` a plugin is probed at `<plugin>/lua/a/b.lua` and
//! then at `<plugin>/lua/a/b/init.lua`, plugin after plugin; the first file
//! that is there is the module. Whether a file is there is for the caller
//! to find out: the search hands out one path at a time and takes the
//! answer.

use vstd::prelude::*;
use crate::config::{below, join_path};
use crate::text::{decimal, decimal_text, extend_str, replace, replace_char, string_of, views};

verus! {

/// The module name as a path fragment: segments joined by the separator.
pub open spec fn fragment(modname: Seq<char>, sep: Seq<char>) -> Seq<char> {
    replace(modname, '.', sep)
}

/// The path at which a plugin would hold the module as a file.
pub open spec fn file_probe(plugin: Seq<char>, modname: Seq<char>, sep: Seq<char>) -> Seq<char> {
    below(below(plugin, "lua"@, sep), fragment(modname, sep) + ".lua"@, sep)
}

/// The path at which a plugin would hold the module as a directory.
pub open spec fn init_probe(plugin: Seq<char>, modname: Seq<char>, sep: Seq<char>) -> Seq<char> {
    below(below(plugin, "lua"@, sep), fragment(modname, sep) + sep + "init.lua"@, sep)
}

/// The paths to probe, in order: two for each plugin.
pub open spec fn probes(plugins: Seq<Seq<char>>, modname: Seq<char>, sep: Seq<char>) -> Seq<Seq<char>>
    decreases plugins.len(),
{
    if plugins.len() == 0 {
        Seq::empty()
    } else {
        probes(plugins.drop_last(), modname, sep).push(
            file_probe(plugins.last(), modname, sep),
        ).push(init_probe(plugins.last(), modname, sep))
    }
}

/// How a search ended.
#[derive(Debug, PartialEq, Eq)]
pub enum Resolution {
    /// There is no plugin root.
    MissingRoot,
    /// The module is the file at this path.
    Found(String),
    /// No plugin holds the module; so many plugins were searched.
    NotFound(usize),
}

/// Mathematical view of a [`Resolution`].
pub enum ResolutionModel {
    MissingRoot,
    Found(Seq<char>),
    NotFound(nat),
}

impl View for Resolution {
    type V = ResolutionModel;

    open spec fn view(&self) -> ResolutionModel {
        match self {
            Resolution::MissingRoot => ResolutionModel::MissingRoot,
            Resolution::Found(p) => ResolutionModel::Found(p@),
            Resolution::NotFound(n) => ResolutionModel::NotFound(*n as nat),
        }
    }
}

/// What the search does next.
#[derive(Debug, PartialEq, Eq)]
pub enum Step {
    /// Find out whether a file is at this path, and answer.
    Probe(String),
    /// The search is over.
    Done(Resolution),
}

/// Mathematical view of a [`Step`].
pub enum StepModel {
    Probe(Seq<char>),
    Done(ResolutionModel),
}

impl View for Step {
    type V = StepModel;

    open spec fn view(&self) -> StepModel {
        match self {
            Step::Probe(p) => StepModel::Probe(p@),
            Step::Done(r) => StepModel::Done(r@),
        }
    }
}

/// A search in progress: the paths to probe and the one that is being asked.
#[derive(Debug, PartialEq, Eq)]
pub struct PluginSearch {
    pub paths: Vec<String>,
    pub cursor: usize,
    pub plugins: usize,
}

/// The position of the first probe that is answered with yes, among the
/// answers from `from` on. A probe without an answer counts as no.
pub open spec fn first_hit(answers: Seq<bool>, from: int, limit: int) -> Option<int>
    decreases limit - from,
{
    if from >= limit {
        None
    } else if 0 <= from < answers.len() && answers[from] {
        Some(from)
    } else {
        first_hit(answers, from + 1, limit)
    }
}

/// How a search ends, by the answers to its probes: the first probe that
/// is a file is the module; with none, every plugin was searched in vain.
pub open spec fn resolve(
    root_present: bool,
    plugins: Seq<Seq<char>>,
    modname: Seq<char>,
    sep: Seq<char>,
    answers: Seq<bool>,
) -> ResolutionModel {
    if !root_present {
        ResolutionModel::MissingRoot
    } else {
        let paths = probes(plugins, modname, sep);
        match first_hit(answers, 0, paths.len() as int) {
            Some(k) => ResolutionModel::Found(paths[k]),
            None => ResolutionModel::NotFound(plugins.len()),
        }
    }
}

/// The line that tells the guest why this searcher has no module for it.
pub open spec fn diagnostic_of(r: ResolutionModel, modname: Seq<char>) -> Option<Seq<char>> {
    match r {
        ResolutionModel::MissingRoot => Some("\n\tno dfim plugin directory"@),
        ResolutionModel::Found(_) => None,
        ResolutionModel::NotFound(n) => Some(
            "\n\tno dfim plugins contain module '"@ + modname + "' ("@ + decimal(n) + " searched)"@,
        ),
    }
}

/// There are two probes for each plugin.
pub proof fn lemma_probes_len(plugins: Seq<Seq<char>>, modname: Seq<char>, sep: Seq<char>)
    ensures
        probes(plugins, modname, sep).len() == 2 * plugins.len(),
    decreases plugins.len(),
{
    if plugins.len() > 0 {
        lemma_probes_len(plugins.drop_last(), modname, sep);
    }
}

/// Plugin `i` is probed first as a file and then as a directory, after all
/// plugins before it.
pub proof fn lemma_probe_order(plugins: Seq<Seq<char>>, modname: Seq<char>, sep: Seq<char>, i: int)
    requires
        0 <= i < plugins.len(),
    ensures
        probes(plugins, modname, sep).len() == 2 * plugins.len(),
        probes(plugins, modname, sep)[2 * i] == file_probe(plugins[i], modname, sep),
        probes(plugins, modname, sep)[2 * i + 1] == init_probe(plugins[i], modname, sep),
    decreases plugins.len(),
{
    lemma_probes_len(plugins, modname, sep);
    lemma_probes_len(plugins.drop_last(), modname, sep);
    if i < plugins.len() - 1 {
        lemma_probe_order(plugins.drop_last(), modname, sep, i);
    }
}

/// The first hit is a probe that was answered with yes, and every probe
/// before it was answered with no; without a hit no probe was answered
/// with yes.
pub proof fn lemma_first_hit(answers: Seq<bool>, from: int, limit: int)
    requires
        0 <= from,
    ensures
        match first_hit(answers, from, limit) {
            Some(k) => from <= k < limit && k < answers.len() && answers[k] && forall|j: int|
                from <= j < k && j < answers.len() ==> !answers[j],
            None => forall|j: int| from <= j < limit && j < answers.len() ==> !answers[j],
        },
    decreases limit - from,
{
    if from < limit {
        lemma_first_hit(answers, from + 1, limit);
    }
}

/// A search that finds the module names the file of the first probe that
/// was answered with yes, and no other; a search that does not find it has
/// asked about every plugin and counts them all.
pub proof fn lemma_resolve(
    plugins: Seq<Seq<char>>,
    modname: Seq<char>,
    sep: Seq<char>,
    answers: Seq<bool>,
)
    ensures
        match resolve(true, plugins, modname, sep, answers) {
            ResolutionModel::Found(path) => exists|k: int|
                0 <= k < 2 * plugins.len() && k < answers.len() && answers[k] && path == (
                #[trigger] probes(plugins, modname, sep)[k]) && forall|j: int|
                    0 <= j < k ==> !answers[j],
            ResolutionModel::NotFound(n) => n == plugins.len() && forall|j: int|
                0 <= j < 2 * plugins.len() && j < answers.len() ==> !answers[j],
            ResolutionModel::MissingRoot => false,
        },
{
    lemma_probes_len(plugins, modname, sep);
    lemma_first_hit(answers, 0, 2 * plugins.len() as int);
}

/// The path fragment for a module name.
pub fn module_fragment(modname: &str, sep: &str) -> (out: String)
    ensures
        out@ == fragment(modname@, sep@),
{
    replace_char(modname, '.', sep)
}

/// The paths to probe for a module, in order.
pub fn probe_paths(plugins: &Vec<String>, modname: &str, sep: &str) -> (out: Vec<String>)
    ensures
        views(out@) == probes(views(plugins@), modname@, sep@),
{
    let name = module_fragment(modname, sep);
    let as_file = crate::text::concat_text(name.as_str(), ".lua");
    let mut acc = crate::text::chars_of(name.as_str());
    extend_str(&mut acc, sep);
    extend_str(&mut acc, "init.lua");
    let as_dir = string_of(&acc);
    let mut out: Vec<String> = Vec::new();
    let mut i: usize = 0;
    assert(views(plugins@).take(0) == Seq::<Seq<char>>::empty());
    while i < plugins.len()
        invariant
            i <= plugins@.len(),
            as_file@ == fragment(modname@, sep@) + ".lua"@,
            as_dir@ == fragment(modname@, sep@) + sep@ + "init.lua"@,
            views(out@) == probes(views(plugins@).take(i as int), modname@, sep@),
        decreases plugins.len() - i,
    {
        let ghost upto = views(plugins@).take(i + 1);
        assert(upto.drop_last() == views(plugins@).take(i as int));
        assert(upto.last() == plugins@[i as int]@);
        let dir = join_path(plugins[i].as_str(), "lua", sep);
        let first = join_path(dir.as_str(), as_file.as_str(), sep);
        let second = join_path(dir.as_str(), as_dir.as_str(), sep);
        let ghost before = out@;
        out.push(first);
        out.push(second);
        assert(views(out@) == views(before).push(first@).push(second@));
        i = i + 1;
    }
    assert(views(plugins@).take(plugins.len() as int) == views(plugins@));
    out
}

impl Resolution {
    /// The line that tells the guest why this searcher has no module for
    /// it; `None` where the module was found.
    pub fn diagnostic(&self, modname: &str) -> (out: Option<String>)
        ensures
            crate::cli::option_view(out) == diagnostic_of(self@, modname@),
    {
        match self {
            Resolution::MissingRoot => Some("\n\tno dfim plugin directory".to_owned()),
            Resolution::Found(_) => None,
            Resolution::NotFound(n) => {
                let mut acc: Vec<char> = Vec::new();
                extend_str(&mut acc, "\n\tno dfim plugins contain module '");
                extend_str(&mut acc, modname);
                extend_str(&mut acc, "' (");
                let count = decimal_text(*n as u64);
                extend_str(&mut acc, count.as_str());
                extend_str(&mut acc, " searched)");
                Some(string_of(&acc))
            },
        }
    }
}

impl PluginSearch {
    /// The search holds the probes for these plugins and this module.
    pub open spec fn laid_out(&self, plugins: Seq<Seq<char>>, modname: Seq<char>, sep: Seq<char>) -> bool {
        &&& views(self.paths@) == probes(plugins, modname, sep)
        &&& self.plugins == plugins.len()
    }

    /// Starts a search. With no plugin root, or no plugin in it, the search
    /// is over at once.
    pub fn begin(root_present: bool, plugins: &Vec<String>, modname: &str, sep: &str) -> (r: (
        PluginSearch,
        Step,
    ))
        ensures
            r.0.cursor == 0,
            root_present ==> r.0.laid_out(views(plugins@), modname@, sep@),
            r.1@ == (if !root_present {
                StepModel::Done(ResolutionModel::MissingRoot)
            } else if plugins@.len() == 0 {
                StepModel::Done(ResolutionModel::NotFound(0))
            } else {
                StepModel::Probe(probes(views(plugins@), modname@, sep@)[0])
            }),
    {
        if !root_present {
            let search = PluginSearch { paths: Vec::new(), cursor: 0, plugins: 0 };
            return (search, Step::Done(Resolution::MissingRoot));
        }
        let paths = probe_paths(plugins, modname, sep);
        proof {
            lemma_probes_len(views(plugins@), modname@, sep@);
        }
        let search = PluginSearch { paths, cursor: 0, plugins: plugins.len() };
        if search.paths.len() == 0 {
            return (search, Step::Done(Resolution::NotFound(0)));
        }
        let first = search.paths[0].clone();
        (search, Step::Probe(first))
    }

    /// Takes the answer to the probe that was handed out last: whether a
    /// file is at that path. A yes ends the search with that path; a no
    /// moves on to the next probe, or ends the search where none is left.
    pub fn answer(&mut self, is_file: bool) -> (step: Step)
        ensures
            final(self).paths == old(self).paths,
            final(self).plugins == old(self).plugins,
            step@ == (if old(self).cursor >= old(self).paths@.len() {
                StepModel::Done(ResolutionModel::NotFound(old(self).plugins as nat))
            } else if is_file {
                StepModel::Done(ResolutionModel::Found(old(self).paths@[old(self).cursor as int]@))
            } else if old(self).cursor + 1 < old(self).paths@.len() {
                StepModel::Probe(old(self).paths@[old(self).cursor + 1]@)
            } else {
                StepModel::Done(ResolutionModel::NotFound(old(self).plugins as nat))
            }),
            final(self).cursor == (if old(self).cursor < old(self).paths@.len() && !is_file {
                old(self).cursor + 1
            } else {
                old(self).cursor as int
            }),
    {
        if self.cursor >= self.paths.len() {
            return Step::Done(Resolution::NotFound(self.plugins));
        }
        if is_file {
            return Step::Done(Resolution::Found(self.paths[self.cursor].clone()));
        }
        self.cursor = self.cursor + 1;
        if self.cursor < self.paths.len() {
            Step::Probe(self.paths[self.cursor].clone())
        } else {
            Step::Done(Resolution::NotFound(self.plugins))
        }
    }
}

/// Runs a whole search against the answers to its probes, in probe order.
/// A probe without an answer counts as no.
pub fn search_plugins(
    root_present: bool,
    plugins: &Vec<String>,
    modname: &str,
    sep: &str,
    answers: &Vec<bool>,
) -> (r: Resolution)
    ensures
        r@ == resolve(root_present, views(plugins@), modname@, sep@, answers@),
{
    let (mut search, first) = PluginSearch::begin(root_present, plugins, modname, sep);
    let ghost paths = probes(views(plugins@), modname@, sep@);
    proof {
        lemma_probes_len(views(plugins@), modname@, sep@);
    }
    let mut step = first;
    loop
        invariant
            root_present ==> search.laid_out(views(plugins@), modname@, sep@),
            paths == probes(views(plugins@), modname@, sep@),
            paths.len() == 2 * plugins@.len(),
            match step {
                Step::Probe(p) => root_present && search.cursor < paths.len() && p@
                    == paths[search.cursor as int] && first_hit(answers@, 0, paths.len() as int)
                    == first_hit(answers@, search.cursor as int, paths.len() as int),
                Step::Done(r) => r@ == resolve(
                    root_present,
                    views(plugins@),
                    modname@,
                    sep@,
                    answers@,
                ),
            },
        decreases
            (if step is Probe {
                paths.len() - search.cursor
            } else {
                0
            }),
    {
        match step {
            Step::Done(r) => {
                return r;
            },
            Step::Probe(_) => {
                let hit = search.cursor < answers.len() && answers[search.cursor];
                assert(views(search.paths@)[search.cursor as int] == search.paths@[search.cursor as int]@);
                proof {
                    if search.cursor + 1 < search.paths@.len() {
                        assert(views(search.paths@)[search.cursor + 1] == search.paths@[search.cursor
                            + 1]@);
                    }
                }
                step = search.answer(hit);
            },
        }
    }
}

} // verus!
