//! The interactive evaluator as a state machine.
//!
//! The session reads one line at a time. Lines are gathered in a buffer
//! until they make a complete statement; what is run is the buffer joined
//! by spaces. Reading lines and running code is the caller's part: it
//! hands in what it read and how the run ended, and is told what to do next.

use vstd::prelude::*;
use crate::text::{
    chars_of, ends_with, extend_str, is_suffix, join, join_strings, same_text, string_of, views,
};

verus! {

/// What the line source delivered.
#[derive(Debug, PartialEq, Eq)]
pub enum Input {
    Line(String),
    /// The user interrupted the prompt.
    Interrupted,
    /// The input ended.
    Eof,
}

/// What a line asks for.
#[derive(Debug, PartialEq, Eq)]
pub enum Action {
    /// Queue this code and run the buffer.
    Execute(String),
    /// Discard the buffer.
    Reset,
    /// Leave the session.
    Exit,
}

/// Mathematical view of an [`Action`].
pub enum ActionModel {
    Execute(Seq<char>),
    Reset,
    Exit,
}

impl View for Action {
    type V = ActionModel;

    open spec fn view(&self) -> ActionModel {
        match self {
            Action::Execute(code) => ActionModel::Execute(code@),
            Action::Reset => ActionModel::Reset,
            Action::Exit => ActionModel::Exit,
        }
    }
}

/// How running the buffer ended.
#[derive(Clone, Copy, Debug, PartialEq, Eq, Structural)]
pub enum Outcome {
    /// The code ran.
    CompleteOk,
    /// The code ends before a statement is closed.
    IncompleteInput,
    /// The code is an expression where a statement was expected.
    BareExpressionError,
    /// Any other failure.
    OtherError,
}

/// What the session does after feeding it what was read.
#[derive(Debug, PartialEq, Eq)]
pub enum Turn {
    /// Leave the session.
    Exit,
    /// Nothing to run; prompt again.
    Prompt,
    /// The line goes to the history, and this code is run.
    Run(String),
}

/// Mathematical view of a [`Turn`].
pub enum TurnModel {
    Exit,
    Prompt,
    Run(Seq<char>),
}

impl View for Turn {
    type V = TurnModel;

    open spec fn view(&self) -> TurnModel {
        match self {
            Turn::Exit => TurnModel::Exit,
            Turn::Prompt => TurnModel::Prompt,
            Turn::Run(code) => TurnModel::Run(code@),
        }
    }
}

/// What the caller does after a run.
#[derive(Debug, PartialEq, Eq)]
pub enum Followup {
    /// Prompt again.
    Prompt,
    /// Run this code once instead; if it fails too, report the failure of
    /// the first run, not of this one.
    Retry(String),
    /// Report the failure, then prompt again.
    Report,
}

/// Mathematical view of a [`Followup`].
pub enum FollowupModel {
    Prompt,
    Retry(Seq<char>),
    Report,
}

impl View for Followup {
    type V = FollowupModel;

    open spec fn view(&self) -> FollowupModel {
        match self {
            Followup::Prompt => FollowupModel::Prompt,
            Followup::Retry(code) => FollowupModel::Retry(code@),
            Followup::Report => FollowupModel::Report,
        }
    }
}

/// The state of a session: the lines gathered so far, and whether they
/// are waiting to be continued.
#[derive(Debug, PartialEq, Eq)]
pub struct Repl {
    pub buffer: Vec<String>,
    pub incomplete: bool,
}

/// Mathematical view of a [`Repl`].
pub struct ReplModel {
    pub buffer: Seq<Seq<char>>,
    pub incomplete: bool,
}

impl View for Repl {
    type V = ReplModel;

    open spec fn view(&self) -> ReplModel {
        ReplModel { buffer: views(self.buffer@), incomplete: self.incomplete }
    }
}

/// The code that prints what `code` evaluates to.
pub open spec fn inspect_of(code: Seq<char>) -> Seq<char> {
    "print(dfim.inspect("@ + code + "))"@
}

/// The buffer as one piece of code.
pub open spec fn joined(lines: Seq<Seq<char>>) -> Seq<char> {
    join(lines, " "@)
}

/// Whether a line is one of the words that end the session.
pub open spec fn is_sentinel(line: Seq<char>) -> bool {
    line == "exit"@ || line == "q"@ || line == "quit"@
}

/// Whether a line asks to print what follows its `=`.
pub open spec fn is_inspection(line: Seq<char>) -> bool {
    line.len() > 0 && line[0] == '='
}

/// What a line asks for. On the first line of a buffer `=expr` is
/// rewritten to print `expr`.
pub open spec fn action_of_line(line: Seq<char>, firstline: bool) -> ActionModel {
    if is_sentinel(line) {
        ActionModel::Exit
    } else if line.len() == 0 {
        ActionModel::Reset
    } else if firstline && is_inspection(line) {
        ActionModel::Execute(inspect_of(line.subrange(1, line.len() as int)))
    } else {
        ActionModel::Execute(line)
    }
}

/// What an input asks for: the end of input and an interrupt count as
/// the word `exit`.
pub open spec fn action_of(input: Input, firstline: bool) -> ActionModel {
    match input {
        Input::Line(line) => action_of_line(line@, firstline),
        Input::Interrupted => ActionModel::Exit,
        Input::Eof => ActionModel::Exit,
    }
}

/// The session after an input, and what it does next.
pub open spec fn fed(state: ReplModel, input: Input) -> (ReplModel, TurnModel) {
    match action_of(input, state.buffer.len() == 0) {
        ActionModel::Exit => (state, TurnModel::Exit),
        ActionModel::Reset => (
            ReplModel { buffer: Seq::empty(), incomplete: false },
            TurnModel::Prompt,
        ),
        ActionModel::Execute(code) => (
            ReplModel { buffer: state.buffer.push(code), incomplete: state.incomplete },
            TurnModel::Run(joined(state.buffer.push(code))),
        ),
    }
}

/// The session after a run, and what the caller does next.
pub open spec fn settled(state: ReplModel, outcome: Outcome) -> (ReplModel, FollowupModel) {
    let cleared = ReplModel { buffer: Seq::empty(), incomplete: false };
    match outcome {
        Outcome::CompleteOk => (cleared, FollowupModel::Prompt),
        Outcome::IncompleteInput => (
            ReplModel { buffer: state.buffer, incomplete: state.buffer.len() > 0 },
            FollowupModel::Prompt,
        ),
        Outcome::BareExpressionError => (
            cleared,
            FollowupModel::Retry(inspect_of(joined(state.buffer))),
        ),
        Outcome::OtherError => (cleared, FollowupModel::Report),
    }
}

/// How a failed run is classified, by what the guest runtime says of it.
pub open spec fn classified(syntax: bool, message: Seq<char>, incomplete_input: bool) -> Outcome {
    if !syntax {
        Outcome::OtherError
    } else if is_suffix("'=' expected near '<eof>'"@, message) {
        Outcome::BareExpressionError
    } else if incomplete_input {
        Outcome::IncompleteInput
    } else {
        Outcome::OtherError
    }
}

/// A session that waits to be continued has something to continue.
pub open spec fn consistent(state: ReplModel) -> bool {
    state.incomplete ==> state.buffer.len() > 0
}

/// Feeding and settling keep a session consistent, and every run that
/// does not ask for more input leaves the buffer empty and the session
/// not waiting.
pub proof fn lemma_session(state: ReplModel, input: Input, outcome: Outcome)
    requires
        consistent(state),
    ensures
        consistent(fed(state, input).0),
        consistent(settled(state, outcome).0),
        outcome != Outcome::IncompleteInput ==> settled(state, outcome).0 == (ReplModel {
            buffer: Seq::empty(),
            incomplete: false,
        }),
        outcome == Outcome::IncompleteInput ==> settled(state, outcome).0.buffer == state.buffer,
{
}

/// The code that prints what `value` evaluates to.
pub fn inspect(value: &str) -> (out: String)
    ensures
        out@ == inspect_of(value@),
{
    let mut acc: Vec<char> = Vec::new();
    extend_str(&mut acc, "print(dfim.inspect(");
    extend_str(&mut acc, value);
    extend_str(&mut acc, "))");
    string_of(&acc)
}

/// The code that prints what the joined lines evaluate to.
pub fn inspect_lines(lines: &Vec<String>) -> (out: String)
    ensures
        out@ == inspect_of(joined(views(lines@))),
{
    let code = join_strings(lines, " ");
    inspect(code.as_str())
}

/// The prompt: the secondary caret while a statement is being continued.
pub fn caret(incomplete: bool) -> (out: &'static str)
    ensures
        out@ == (if incomplete {
            ">> "@
        } else {
            "> "@
        }),
{
    if incomplete {
        ">> "
    } else {
        "> "
    }
}

/// Decides what an input asks for.
pub fn readline(input: Input, firstline: bool) -> (action: Action)
    ensures
        action@ == action_of(input, firstline),
{
    match input {
        Input::Line(line) => {
            let text = line.as_str();
            if same_text(text, "exit") || same_text(text, "q") || same_text(text, "quit") {
                Action::Exit
            } else if text.is_empty() {
                Action::Reset
            } else {
                let chars = chars_of(text);
                if firstline && chars[0] == '=' {
                    let mut rest: Vec<char> = Vec::new();
                    let mut i: usize = 1;
                    while i < chars.len()
                        invariant
                            1 <= i <= chars.len(),
                            rest@ == chars@.subrange(1, i as int),
                        decreases chars.len() - i,
                    {
                        rest.push(chars[i]);
                        i = i + 1;
                    }
                    let expr = string_of(&rest);
                    Action::Execute(inspect(expr.as_str()))
                } else {
                    Action::Execute(line)
                }
            }
        },
        Input::Interrupted => Action::Exit,
        Input::Eof => Action::Exit,
    }
}

/// Classifies a failed run by what the guest runtime says of it: whether
/// it is a syntax error, its message, and whether the runtime marked the
/// input as incomplete.
pub fn classify_failure(syntax: bool, message: &str, incomplete_input: bool) -> (outcome: Outcome)
    ensures
        outcome == classified(syntax, message@, incomplete_input),
{
    if !syntax {
        Outcome::OtherError
    } else if ends_with(message, "'=' expected near '<eof>'") {
        Outcome::BareExpressionError
    } else if incomplete_input {
        Outcome::IncompleteInput
    } else {
        Outcome::OtherError
    }
}

/// What the guest runtime says of a failure that is a syntax error: its
/// message and whether it marked the input as incomplete. `None` for every
/// other failure.
pub uninterp spec fn syntax_of(e: mlua::Error) -> Option<(Seq<char>, bool)>;

/// Tells the variant `mlua::Error::SyntaxError` apart from the others and
/// hands out its two fields.
#[verifier::external_body]
fn syntax_parts(e: &mlua::Error) -> (r: Option<(String, bool)>)
    ensures
        match r {
            Some((message, incomplete_input)) => syntax_of(*e) == Some(
                (message@, incomplete_input),
            ),
            None => syntax_of(*e) is None,
        },
{
    match e {
        mlua::Error::SyntaxError { message, incomplete_input } => Some(
            (message.clone(), *incomplete_input),
        ),
        _ => None,
    }
}

/// How a failure of the guest runtime is classified.
pub open spec fn classified_error(e: mlua::Error) -> Outcome {
    match syntax_of(e) {
        Some((message, incomplete_input)) => classified(true, message, incomplete_input),
        None => Outcome::OtherError,
    }
}

/// Classifies a failure of the guest runtime.
pub fn classify_error(e: &mlua::Error) -> (outcome: Outcome)
    ensures
        outcome == classified_error(*e),
{
    match syntax_parts(e) {
        Some((message, incomplete_input)) => classify_failure(
            true,
            message.as_str(),
            incomplete_input,
        ),
        None => Outcome::OtherError,
    }
}

impl Repl {
    /// A session with an empty buffer.
    pub fn new() -> (r: Repl)
        ensures
            r@ == (ReplModel { buffer: Seq::empty(), incomplete: false }),
    {
        let r = Repl { buffer: Vec::new(), incomplete: false };
        assert(r@.buffer =~= Seq::<Seq<char>>::empty());
        r
    }

    /// The prompt to show.
    pub fn prompt(&self) -> (out: &'static str)
        ensures
            out@ == (if self.incomplete {
                ">> "@
            } else {
                "> "@
            }),
    {
        caret(self.incomplete)
    }

    /// Takes what the line source delivered. A line that is to be run goes
    /// to the end of the buffer, and the whole buffer is the code to run.
    pub fn feed(&mut self, input: Input) -> (turn: Turn)
        ensures
            final(self)@ == fed(old(self)@, input).0,
            turn@ == fed(old(self)@, input).1,
    {
        let firstline = self.buffer.len() == 0;
        match readline(input, firstline) {
            Action::Exit => Turn::Exit,
            Action::Reset => {
                self.buffer = Vec::new();
                self.incomplete = false;
                assert(self@.buffer =~= Seq::<Seq<char>>::empty());
                Turn::Prompt
            },
            Action::Execute(code) => {
                let ghost before = views(self.buffer@);
                self.buffer.push(code);
                assert(views(self.buffer@) =~= before.push(code@));
                Turn::Run(join_strings(&self.buffer, " "))
            },
        }
    }

    /// Takes how the run ended. The buffer is kept only where the code
    /// was incomplete; every other ending clears it.
    pub fn settle(&mut self, outcome: Outcome) -> (next: Followup)
        ensures
            final(self)@ == settled(old(self)@, outcome).0,
            next@ == settled(old(self)@, outcome).1,
    {
        match outcome {
            Outcome::IncompleteInput => {
                self.incomplete = self.buffer.len() > 0;
                Followup::Prompt
            },
            Outcome::BareExpressionError => {
                let code = inspect_lines(&self.buffer);
                self.clear();
                Followup::Retry(code)
            },
            Outcome::CompleteOk => {
                self.clear();
                Followup::Prompt
            },
            Outcome::OtherError => {
                self.clear();
                Followup::Report
            },
        }
    }

    fn clear(&mut self)
        ensures
            final(self)@ == (ReplModel { buffer: Seq::empty(), incomplete: false }),
    {
        self.buffer = Vec::new();
        self.incomplete = false;
        assert(self@.buffer =~= Seq::<Seq<char>>::empty());
    }
}

/// What the caller does after the one retry: nothing more where it ran,
/// else report the failure of the first run.
pub fn after_retry(ran: bool) -> (next: Followup)
    ensures
        next@ == (if ran {
            FollowupModel::Prompt
        } else {
            FollowupModel::Report
        }),
{
    if ran {
        Followup::Prompt
    } else {
        Followup::Report
    }
}

} // verus!
