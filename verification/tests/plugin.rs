use dfim::plugin::{module_fragment, probe_paths, search_plugins, PluginSearch, Resolution, Step};

fn strings(items: &[&str]) -> Vec<String> {
    items.iter().map(|s| s.to_string()).collect()
}

fn resolve_among(files: &[&str], plugins: &[&str], root_present: bool, modname: &str) -> Resolution {
    let plugins = strings(plugins);
    let (mut search, mut step) = PluginSearch::begin(root_present, &plugins, modname, "/");
    loop {
        match step {
            Step::Done(r) => return r,
            Step::Probe(path) => step = search.answer(files.contains(&path.as_str())),
        }
    }
}

#[test]
fn module_fragment_joins_segments_by_the_separator() {
    assert_eq!(module_fragment("foo.bar", "/"), "foo/bar");
    assert_eq!(module_fragment("foo", "/"), "foo");
    assert_eq!(module_fragment("a.b.c", "\\"), "a\\b\\c");
    assert_eq!(module_fragment("", "/"), "");
}

#[test]
fn probes_come_two_for_each_plugin() {
    let plugins = strings(&["/p/demo", "/p/other/"]);
    assert_eq!(
        probe_paths(&plugins, "foo.bar", "/"),
        strings(&[
            "/p/demo/lua/foo/bar.lua",
            "/p/demo/lua/foo/bar/init.lua",
            "/p/other/lua/foo/bar.lua",
            "/p/other/lua/foo/bar/init.lua",
        ])
    );
    assert_eq!(probe_paths(&vec![], "foo", "/"), Vec::<String>::new());
}

#[test]
fn plugin_file_is_resolved_and_no_other() {
    let files = ["/root/demo/lua/foo/bar.lua", "/root/demo/lua/foo/other.lua"];
    let found = resolve_among(&files, &["/root/demo"], true, "foo.bar");
    assert_eq!(found, Resolution::Found("/root/demo/lua/foo/bar.lua".into()));
    let missing = resolve_among(&files, &["/root/demo"], true, "foo.baz");
    assert_eq!(missing, Resolution::NotFound(1));
    assert_eq!(
        missing.diagnostic("foo.baz"),
        Some("\n\tno dfim plugins contain module 'foo.baz' (1 searched)".to_string())
    );
    assert_eq!(found.diagnostic("foo.bar"), None);
    let gone = resolve_among(&files, &[], false, "foo.bar");
    assert_eq!(gone, Resolution::MissingRoot);
    assert_eq!(gone.diagnostic("foo.bar"), Some("\n\tno dfim plugin directory".to_string()));
}

#[test]
fn module_directory_is_resolved_through_its_init_file() {
    let files = ["/root/b/lua/foo/bar/init.lua"];
    let found = resolve_among(&files, &["/root/a", "/root/b"], true, "foo.bar");
    assert_eq!(found, Resolution::Found("/root/b/lua/foo/bar/init.lua".into()));
    let both = ["/root/b/lua/foo.lua", "/root/a/lua/foo/init.lua"];
    let first = resolve_among(&both, &["/root/a", "/root/b"], true, "foo");
    assert_eq!(first, Resolution::Found("/root/a/lua/foo/init.lua".into()));
}

#[test]
fn first_probe_that_is_a_file_wins() {
    let plugins = strings(&["a", "b"]);
    let run = |answers: Vec<bool>| search_plugins(true, &plugins, "m.n", "/", &answers);
    assert_eq!(run(vec![true, true, true, true]), Resolution::Found("a/lua/m/n.lua".into()));
    assert_eq!(run(vec![false, true, true, true]), Resolution::Found("a/lua/m/n/init.lua".into()));
    assert_eq!(run(vec![false, false, true, false]), Resolution::Found("b/lua/m/n.lua".into()));
    assert_eq!(run(vec![false, false, false, true]), Resolution::Found("b/lua/m/n/init.lua".into()));
    assert_eq!(run(vec![false, false, false, false]), Resolution::NotFound(2));
    assert_eq!(run(vec![false]), Resolution::NotFound(2));
    assert_eq!(run(vec![]), Resolution::NotFound(2));
    assert_eq!(search_plugins(false, &plugins, "m.n", "/", &vec![true]), Resolution::MissingRoot);
    assert_eq!(search_plugins(true, &vec![], "m", "/", &vec![true]), Resolution::NotFound(0));
}

#[test]
fn search_probes_lazily_and_stops_at_a_hit() {
    let plugins = strings(&["a", "b"]);
    let (mut search, first) = PluginSearch::begin(true, &plugins, "m", "/");
    assert_eq!(first, Step::Probe("a/lua/m.lua".into()));
    assert_eq!(search.answer(false), Step::Probe("a/lua/m/init.lua".into()));
    assert_eq!(search.answer(false), Step::Probe("b/lua/m.lua".into()));
    assert_eq!(search.answer(true), Step::Done(Resolution::Found("b/lua/m.lua".into())));
    let (mut none, first) = PluginSearch::begin(true, &strings(&["a"]), "m", "/");
    assert_eq!(first, Step::Probe("a/lua/m.lua".into()));
    assert_eq!(none.answer(false), Step::Probe("a/lua/m/init.lua".into()));
    assert_eq!(none.answer(false), Step::Done(Resolution::NotFound(1)));
    assert_eq!(none.answer(true), Step::Done(Resolution::NotFound(1)));
    let (_, absent) = PluginSearch::begin(false, &plugins, "m", "/");
    assert_eq!(absent, Step::Done(Resolution::MissingRoot));
}

#[test]
fn diagnostic_counts_the_plugins_searched() {
    assert_eq!(
        Resolution::NotFound(0).diagnostic("x"),
        Some("\n\tno dfim plugins contain module 'x' (0 searched)".to_string())
    );
    assert_eq!(
        Resolution::NotFound(120).diagnostic("a.b"),
        Some("\n\tno dfim plugins contain module 'a.b' (120 searched)".to_string())
    );
}
