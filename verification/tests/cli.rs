use dfim::cli::{BuildInfo, Cli, Commands, LuaArgs};
use dfim::commands::lua::LuaRun;
use dfim::commands::Run;

fn build(sha: bool) -> BuildInfo {
    BuildInfo {
        name: "dfim".into(),
        version: "0.1.0".into(),
        sha_short: if sha { Some("abc1234".into()) } else { None },
        sha: if sha { Some("abc1234def".into()) } else { None },
        commit_date: "2024-01-02".into(),
        target: "x86_64-unknown-linux-gnu".into(),
        debug: false,
        opt_level: "3".into(),
    }
}

fn cli(command: Option<Commands>, verbose: u8) -> Cli {
    Cli { command, config_path: None, quiet: false, verbose, help: None, version: false }
}

#[test]
fn version_string_is_one_line_by_default() {
    assert_eq!(cli(None, 0).version_string(&build(false)), "dfim 0.1.0");
    assert_eq!(cli(None, 0).version_string(&build(true)), "dfim 0.1.0 (abc1234 2024-01-02)");
}

#[test]
fn verbose_version_string_lists_the_build() {
    assert_eq!(
        cli(None, 1).version_string(&build(true)),
        "dfim 0.1.0 (abc1234 2024-01-02)\n\
         commit-hash: abc1234def\n\
         commit-date: 2024-01-02\n\
         build-target: x86_64-unknown-linux-gnu\n\
         build-type: release (opt=3)"
    );
    let mut debug = build(false);
    debug.debug = true;
    debug.opt_level = "0".into();
    assert_eq!(
        cli(None, 3).version_string(&debug),
        "dfim 0.1.0\nbuild-target: x86_64-unknown-linux-gnu\nbuild-type: debug (opt=0)"
    );
}

#[test]
fn lua_subcommand_prefers_block_over_file() {
    let both = LuaArgs { block: Some("print(1)".into()), file: Some("x.lua".into()) };
    assert_eq!(dfim::commands::lua::exec(both), LuaRun::Block("print(1)".into()));
    let file = LuaArgs { block: None, file: Some("x.lua".into()) };
    assert_eq!(dfim::commands::lua::exec(file), LuaRun::File("x.lua".into()));
    let neither = LuaArgs { block: None, file: None };
    assert_eq!(dfim::commands::lua::exec(neither), LuaRun::Repl);
}

#[test]
fn subcommands_are_dispatched() {
    let lua = cli(Some(Commands::Lua(LuaArgs { block: None, file: None })), 0);
    assert_eq!(dfim::commands::exec(lua, &build(false)), Run::Lua(LuaRun::Repl));
    let version = cli(Some(Commands::Version), 0);
    assert_eq!(dfim::commands::exec(version, &build(false)), Run::Version("dfim 0.1.0".into()));
}
