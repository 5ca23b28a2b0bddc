//! What guest code may say about a log record: its level and its target.

use vstd::prelude::*;
use crate::text::{chars_of, extend_str, string_of};
use crate::value::{as_text, lookup, EntryModel, KeyModel, Table};

verus! {

/// The severity of a log record.
#[derive(Clone, Copy, Debug, PartialEq, Eq, Structural)]
pub enum Level {
    Error,
    Warn,
    Info,
    Debug,
    Trace,
}

/// The number that guest code writes for a level.
pub open spec fn number_of(level: Level) -> nat {
    match level {
        Level::Error => 1,
        Level::Warn => 2,
        Level::Info => 3,
        Level::Debug => 4,
        Level::Trace => 5,
    }
}

/// The level that a number stands for. Without a number, and for a number
/// that stands for no level, it is `Info`.
pub open spec fn level_of(number: Option<usize>) -> Level {
    match number {
        Some(n) => if n == 1 {
            Level::Error
        } else if n == 2 {
            Level::Warn
        } else if n == 4 {
            Level::Debug
        } else if n == 5 {
            Level::Trace
        } else {
            Level::Info
        },
        None => Level::Info,
    }
}

/// The target named in the options of a log call: the `target` entry where
/// it is text, else nothing.
pub open spec fn named_target(opts: Option<Seq<EntryModel>>) -> Seq<char> {
    match opts {
        Some(t) => match as_text(lookup(t, KeyModel::Name("target"@))) {
            Some(s) => s,
            None => Seq::empty(),
        },
        None => Seq::empty(),
    }
}

/// The target of a record from guest code: `LUA`, or `LUA::` and the
/// target that was named.
pub open spec fn target_of(named: Seq<char>) -> Seq<char> {
    if named.len() == 0 {
        "LUA"@
    } else {
        "LUA::"@ + named
    }
}

/// Reading a level's number gives the level back.
pub proof fn lemma_level_round_trip(level: Level)
    ensures
        level_of(Some(number_of(level) as usize)) == level,
{
}

/// The number that guest code writes for a level.
pub fn level_number(level: Level) -> (n: usize)
    ensures
        n == number_of(level),
{
    match level {
        Level::Error => 1,
        Level::Warn => 2,
        Level::Info => 3,
        Level::Debug => 4,
        Level::Trace => 5,
    }
}

/// The level of a log call.
pub fn log(level: Option<usize>) -> (out: Level)
    ensures
        out == level_of(level),
{
    match level {
        Some(1) => Level::Error,
        Some(2) => Level::Warn,
        Some(4) => Level::Debug,
        Some(5) => Level::Trace,
        _ => Level::Info,
    }
}

/// The target of a log call, by the options it was given.
pub fn fmt_target(opts: Option<&Table>) -> (out: String)
    ensures
        out@ == target_of(
            named_target(
                match opts {
                    Some(t) => Some(t@),
                    None => None,
                },
            ),
        ),
{
    let mut named = String::new();
    if let Some(t) = opts {
        if let Some(v) = t.get_name("target") {
            if let Some(s) = v.text() {
                named = s;
            }
        }
    }
    let mut acc = chars_of("LUA");
    if !named.as_str().is_empty() {
        extend_str(&mut acc, "::");
        extend_str(&mut acc, named.as_str());
        proof {
            reveal_strlit("LUA");
            reveal_strlit("::");
            reveal_strlit("LUA::");
            assert("LUA"@ + "::"@ =~= "LUA::"@);
            assert(acc@ =~= "LUA::"@ + named@);
        }
    }
    string_of(&acc)
}

} // verus!
