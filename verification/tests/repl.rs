use dfim::repl::{
    after_retry, caret, classify_error, classify_failure, inspect, inspect_lines, readline, Action,
    Followup, Input, Outcome, Repl, Turn,
};
use mlua::Lua;

fn line(s: &str) -> Input {
    Input::Line(s.to_string())
}

fn run(lua: &Lua, code: &str) -> (Outcome, Option<String>) {
    match lua.load(code).set_name("stdin").exec() {
        Ok(_) => (Outcome::CompleteOk, None),
        Err(e) => (classify_error(&e), Some(e.to_string())),
    }
}

fn session() -> Lua {
    let lua = Lua::new();
    lua.load("dfim = { inspect = function(...) return ... end }").exec().unwrap();
    lua.load("printed = {}; print = function(...) printed[#printed + 1] = ... end").exec().unwrap();
    lua
}

fn printed(lua: &Lua) -> Vec<String> {
    let t: mlua::Table = lua.globals().get("printed").unwrap();
    t.sequence_values::<mlua::Value>()
        .map(|v| match v.unwrap() {
            mlua::Value::String(s) => s.to_string_lossy().to_string(),
            mlua::Value::Integer(i) => i.to_string(),
            mlua::Value::Number(n) => n.to_string(),
            other => format!("{other:?}"),
        })
        .collect()
}

#[test]
fn inspect_wraps_code_in_a_print_call() {
    assert_eq!(inspect("x"), "print(dfim.inspect(x))");
    assert_eq!(inspect(""), "print(dfim.inspect())");
    assert_eq!(inspect_lines(&vec!["a".to_string(), "b".to_string()]), "print(dfim.inspect(a b))");
    assert_eq!(inspect_lines(&vec![]), "print(dfim.inspect())");
}

#[test]
fn caret_is_secondary_while_continuing() {
    assert_eq!(caret(false), "> ");
    assert_eq!(caret(true), ">> ");
}

#[test]
fn readline_classifies_lines() {
    assert_eq!(readline(line("exit"), true), Action::Exit);
    assert_eq!(readline(line("q"), false), Action::Exit);
    assert_eq!(readline(line("quit"), false), Action::Exit);
    assert_eq!(readline(Input::Interrupted, true), Action::Exit);
    assert_eq!(readline(Input::Eof, false), Action::Exit);
    assert_eq!(readline(line(""), false), Action::Reset);
    assert_eq!(readline(line("x = 1"), true), Action::Execute("x = 1".into()));
    assert_eq!(readline(line("=1+1"), true), Action::Execute("print(dfim.inspect(1+1))".into()));
    assert_eq!(readline(line("=1+1"), false), Action::Execute("=1+1".into()));
    assert_eq!(readline(line("="), true), Action::Execute("print(dfim.inspect())".into()));
    assert_eq!(readline(line(" exit"), true), Action::Execute(" exit".into()));
    assert_eq!(readline(line("quit()"), true), Action::Execute("quit()".into()));
}

#[test]
fn failures_are_classified() {
    assert_eq!(classify_failure(false, "'=' expected near '<eof>'", true), Outcome::OtherError);
    assert_eq!(
        classify_failure(true, "[string \"stdin\"]:1: '=' expected near '<eof>'", false),
        Outcome::BareExpressionError
    );
    assert_eq!(
        classify_failure(true, "'=' expected near '<eof>'", true),
        Outcome::BareExpressionError
    );
    assert_eq!(classify_failure(true, "'}' expected near '<eof>'", true), Outcome::IncompleteInput);
    assert_eq!(classify_failure(true, "unexpected symbol near '?'", false), Outcome::OtherError);
    assert_eq!(classify_failure(true, "", false), Outcome::OtherError);
}

#[test]
fn guest_failures_are_classified_by_their_variant() {
    let syntax = |message: &str, incomplete_input: bool| mlua::Error::SyntaxError {
        message: message.to_string(),
        incomplete_input,
    };
    assert_eq!(classify_error(&syntax("'=' expected near '<eof>'", false)), Outcome::BareExpressionError);
    assert_eq!(classify_error(&syntax("'}' expected near '<eof>'", true)), Outcome::IncompleteInput);
    assert_eq!(classify_error(&syntax("unexpected symbol", false)), Outcome::OtherError);
    assert_eq!(
        classify_error(&mlua::Error::RuntimeError("'=' expected near '<eof>'".into())),
        Outcome::OtherError
    );
    assert_eq!(classify_error(&mlua::Error::runtime("boom")), Outcome::OtherError);
}

#[test]
fn statement_runs_at_once_and_clears_the_buffer() {
    let lua = session();
    let mut repl = Repl::new();
    assert_eq!(repl.prompt(), "> ");
    let turn = repl.feed(line("local x = 1"));
    assert_eq!(turn, Turn::Run("local x = 1".into()));
    let (outcome, _) = run(&lua, "local x = 1");
    assert_eq!(outcome, Outcome::CompleteOk);
    assert_eq!(repl.settle(outcome), Followup::Prompt);
    assert!(repl.buffer.is_empty());
    assert!(!repl.incomplete);
}

#[test]
fn unterminated_statement_is_continued() {
    let lua = session();
    let mut repl = Repl::new();
    let turn = repl.feed(line("local t = {"));
    assert_eq!(turn, Turn::Run("local t = {".into()));
    let (outcome, _) = run(&lua, "local t = {");
    assert_eq!(outcome, Outcome::IncompleteInput);
    assert_eq!(repl.settle(outcome), Followup::Prompt);
    assert_eq!(repl.buffer, vec!["local t = {".to_string()]);
    assert!(repl.incomplete);
    assert_eq!(repl.prompt(), ">> ");
    let turn = repl.feed(line("}"));
    assert_eq!(turn, Turn::Run("local t = { }".into()));
    let (outcome, _) = run(&lua, "local t = { }");
    assert_eq!(outcome, Outcome::CompleteOk);
    assert_eq!(repl.settle(outcome), Followup::Prompt);
    assert!(repl.buffer.is_empty());
    assert!(!repl.incomplete);
    assert_eq!(repl.prompt(), "> ");
}

#[test]
fn bare_expression_is_retried_as_an_inspection() {
    let lua = session();
    let mut repl = Repl::new();
    let turn = repl.feed(line("42"));
    assert_eq!(turn, Turn::Run("42".into()));
    let next = repl.settle(Outcome::BareExpressionError);
    assert_eq!(next, Followup::Retry("print(dfim.inspect(42))".into()));
    assert!(repl.buffer.is_empty());
    assert!(!repl.incomplete);
    let (retried, _) = run(&lua, "print(dfim.inspect(42))");
    assert_eq!(retried, Outcome::CompleteOk);
    assert_eq!(after_retry(true), Followup::Prompt);
    assert_eq!(printed(&lua), vec!["42".to_string()]);
}

#[test]
fn identifier_is_classified_as_a_bare_expression() {
    let lua = session();
    lua.load("answer = 42").exec().unwrap();
    let mut repl = Repl::new();
    assert_eq!(repl.feed(line("answer")), Turn::Run("answer".into()));
    let (outcome, error) = run(&lua, "answer");
    assert_eq!(outcome, Outcome::BareExpressionError);
    assert!(error.unwrap().ends_with("'=' expected near '<eof>'"));
    let next = repl.settle(outcome);
    assert_eq!(next, Followup::Retry("print(dfim.inspect(answer))".into()));
    let (retried, _) = run(&lua, "print(dfim.inspect(answer))");
    assert_eq!(retried, Outcome::CompleteOk);
    assert_eq!(printed(&lua), vec!["42".to_string()]);
}

#[test]
fn inspection_prefix_is_rewritten_before_buffering() {
    let lua = session();
    let mut repl = Repl::new();
    let turn = repl.feed(line("=1+1"));
    assert_eq!(turn, Turn::Run("print(dfim.inspect(1+1))".into()));
    assert_eq!(repl.buffer, vec!["print(dfim.inspect(1+1))".to_string()]);
    let (outcome, _) = run(&lua, "print(dfim.inspect(1+1))");
    assert_eq!(outcome, Outcome::CompleteOk);
    assert_eq!(repl.settle(outcome), Followup::Prompt);
    assert!(repl.buffer.is_empty());
    assert_eq!(printed(&lua), vec!["2".to_string()]);
}

#[test]
fn failed_retry_reports_and_is_not_retried_again() {
    let mut repl = Repl::new();
    repl.feed(line("nosuch.field"));
    assert_eq!(
        repl.settle(Outcome::BareExpressionError),
        Followup::Retry("print(dfim.inspect(nosuch.field))".into())
    );
    assert_eq!(after_retry(false), Followup::Report);
    assert!(repl.buffer.is_empty());
    assert_eq!(repl.feed(line("x = 1")), Turn::Run("x = 1".into()));
}

#[test]
fn other_failure_is_reported_and_clears_the_buffer() {
    let lua = session();
    let mut repl = Repl::new();
    repl.feed(line("local t = {"));
    repl.settle(Outcome::IncompleteInput);
    let turn = repl.feed(line("?"));
    assert_eq!(turn, Turn::Run("local t = { ?".into()));
    let (outcome, _) = run(&lua, "local t = { ?");
    assert_eq!(outcome, Outcome::OtherError);
    assert_eq!(repl.settle(outcome), Followup::Report);
    assert!(repl.buffer.is_empty());
    assert!(!repl.incomplete);
    let (runtime, _) = run(&lua, "error('boom')");
    assert_eq!(runtime, Outcome::OtherError);
}

#[test]
fn sentinel_and_empty_line_while_continuing() {
    let mut repl = Repl::new();
    repl.feed(line("local t = {"));
    repl.settle(Outcome::IncompleteInput);
    assert_eq!(repl.feed(line("")), Turn::Prompt);
    assert!(repl.buffer.is_empty());
    assert!(!repl.incomplete);
    repl.feed(line("local t = {"));
    repl.settle(Outcome::IncompleteInput);
    assert_eq!(repl.feed(line("quit")), Turn::Exit);
    assert_eq!(repl.feed(Input::Eof), Turn::Exit);
    assert_eq!(repl.feed(Input::Interrupted), Turn::Exit);
    assert_eq!(repl.feed(line("=x")), Turn::Run("local t = { =x".into()));
}

#[test]
fn incomplete_outcome_without_a_buffer_does_not_wait() {
    let mut repl = Repl::new();
    assert_eq!(repl.settle(Outcome::IncompleteInput), Followup::Prompt);
    assert!(!repl.incomplete);
}
