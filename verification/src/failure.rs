//! The failures the library reports.

use vstd::prelude::*;
use crate::text::{extend_str, string_of};
use crate::flex::Wanted;
use crate::value::Kind;

verus! {

/// What a conversion was trying to produce.
#[derive(Clone, Copy, Debug, PartialEq, Eq, Structural)]
pub enum Target {
    Source,
    Path,
}

/// An ordering rule between otherwise independent operations.
#[derive(Clone, Copy, Debug, PartialEq, Eq, Structural)]
pub enum Policy {
    /// The source collection may not be replaced once a layer exists.
    SourcesFrozen,
}

/// Why a guest value could not be read as a source.
#[derive(Clone, Copy, Debug, PartialEq, Eq, Structural)]
pub enum SourceFault {
    /// The identifier is empty or holds only white space.
    Blank,
    /// The table has none of the keys that give a source its shape.
    Shape,
}

/// A failure reported by the library.
#[derive(Debug, PartialEq, Eq)]
pub enum Failure {
    /// A guest value of kind `from` cannot become a `to`.
    Conversion { from: Kind, to: Target },
    /// A guest value of kind `from` is neither of the wanted kind nor a
    /// function that could return one.
    Inflexible { from: Kind, wanted: Wanted },
    /// A number fits neither a 64-bit signed integer nor a double.
    NumberOutOfRange,
    /// The text is not a well-formed document of the interchange format.
    Malformed { message: String },
    /// A namespace segment is already taken by a value that is no container.
    NamespaceConflict { segment: String, kind: Kind },
    /// A dotted name is empty, or one of its inner segments is.
    EmptyModulePath,
    /// A flag key is already used for a value that is no boolean.
    RegistryTypeConflict { key: String },
    /// An operation came after the event that forbids it.
    PolicyViolation(Policy),
    /// A guest value does not describe a source.
    SourceParse(SourceFault),
    /// A source would be registered under the empty name.
    EmptySourceName,
    /// Two sources of one collection would share a name.
    DuplicateSourceName { name: String },
    /// A command line without a program.
    EmptyCommand,
    /// A path is to be joined from no parts.
    MissingPathPart,
    /// The configuration override was already set.
    OverrideAlreadySet,
    /// A path component cannot be a segment of a module name.
    ModuleName { segment: String },
    /// A plugin file was found but could not be loaded.
    PluginLoad { message: String },
    /// A child process could not be started.
    ProcessSpawn { message: String },
}

/// Mathematical view of an [`Failure`].
pub enum FailureModel {
    Conversion { from: Kind, to: Target },
    Inflexible { from: Kind, wanted: Wanted },
    NumberOutOfRange,
    Malformed { message: Seq<char> },
    NamespaceConflict { segment: Seq<char>, kind: Kind },
    EmptyModulePath,
    RegistryTypeConflict { key: Seq<char> },
    PolicyViolation(Policy),
    SourceParse(SourceFault),
    EmptySourceName,
    DuplicateSourceName { name: Seq<char> },
    EmptyCommand,
    MissingPathPart,
    OverrideAlreadySet,
    ModuleName { segment: Seq<char> },
    PluginLoad { message: Seq<char> },
    ProcessSpawn { message: Seq<char> },
}

impl View for Failure {
    type V = FailureModel;

    open spec fn view(&self) -> FailureModel {
        match self {
            Failure::Conversion { from, to } => FailureModel::Conversion { from: *from, to: *to },
            Failure::Inflexible { from, wanted } => FailureModel::Inflexible {
                from: *from,
                wanted: *wanted,
            },
            Failure::NumberOutOfRange => FailureModel::NumberOutOfRange,
            Failure::Malformed { message } => FailureModel::Malformed { message: message@ },
            Failure::NamespaceConflict { segment, kind } => FailureModel::NamespaceConflict {
                segment: segment@,
                kind: *kind,
            },
            Failure::EmptyModulePath => FailureModel::EmptyModulePath,
            Failure::RegistryTypeConflict { key } => FailureModel::RegistryTypeConflict { key: key@ },
            Failure::PolicyViolation(p) => FailureModel::PolicyViolation(*p),
            Failure::SourceParse(f) => FailureModel::SourceParse(*f),
            Failure::EmptySourceName => FailureModel::EmptySourceName,
            Failure::DuplicateSourceName { name } => FailureModel::DuplicateSourceName { name: name@ },
            Failure::EmptyCommand => FailureModel::EmptyCommand,
            Failure::MissingPathPart => FailureModel::MissingPathPart,
            Failure::OverrideAlreadySet => FailureModel::OverrideAlreadySet,
            Failure::ModuleName { segment } => FailureModel::ModuleName { segment: segment@ },
            Failure::PluginLoad { message } => FailureModel::PluginLoad { message: message@ },
            Failure::ProcessSpawn { message } => FailureModel::ProcessSpawn { message: message@ },
        }
    }
}

/// The name of a kind, as the guest runtime writes it.
pub open spec fn kind_name(kind: Kind) -> Seq<char> {
    match kind {
        Kind::Nil => "nil"@,
        Kind::Boolean => "boolean"@,
        Kind::LightUserData => "lightuserdata"@,
        Kind::Integer => "integer"@,
        Kind::Number => "number"@,
        Kind::String => "string"@,
        Kind::Table => "table"@,
        Kind::Function => "function"@,
        Kind::Thread => "thread"@,
        Kind::UserData => "userdata"@,
        Kind::Error => "error"@,
    }
}

/// The name of what a conversion was trying to produce.
pub open spec fn target_name(target: Target) -> Seq<char> {
    match target {
        Target::Source => "Source"@,
        Target::Path => "Path"@,
    }
}

/// What a value of the wrong kind should have been.
pub open spec fn expectation(target: Target) -> Seq<char> {
    match target {
        Target::Source => "expected a table or string value"@,
        Target::Path => "expected a string value"@,
    }
}

/// The host type that a wanted kind is converted to.
pub open spec fn wanted_type(wanted: Wanted) -> Seq<char> {
    match wanted {
        Wanted::Boolean => "bool"@,
        Wanted::Text => "String"@,
        Wanted::Integer => "i64"@,
        Wanted::Number => "f64"@,
        Wanted::Table => "Table"@,
    }
}

/// What a flexible value should have been.
pub open spec fn wanted_hint(wanted: Wanted) -> Seq<char> {
    match wanted {
        Wanted::Boolean => "expected bool or function returning a bool"@,
        Wanted::Text => "expected string or function returning a string"@,
        Wanted::Integer => "expected integer or function returning a integer"@,
        Wanted::Number => "expected integer or function returning a integer"@,
        Wanted::Table => "expected table or function returning a table"@,
    }
}

/// The text of a failure, as it is shown to the user.
pub open spec fn message_of(e: FailureModel) -> Seq<char> {
    match e {
        FailureModel::Conversion { from, to } => "error converting Lua "@ + kind_name(from)
            + " to "@ + target_name(to) + " ("@ + expectation(to) + ")"@,
        FailureModel::Inflexible { from, wanted } => "error converting Lua "@ + kind_name(from)
            + " to "@ + wanted_type(wanted) + " ("@ + wanted_hint(wanted) + ")"@,
        FailureModel::NumberOutOfRange => "value is not representable as i64 or f64"@,
        FailureModel::Malformed { message } => message,
        FailureModel::NamespaceConflict { segment, kind } => "cannot create table `"@ + segment
            + "`, value exists with type `"@ + kind_name(kind) + "`"@,
        FailureModel::EmptyModulePath => "module parts must not be empty"@,
        FailureModel::RegistryTypeConflict { key } => "registry already contains `"@ + key
            + "` and is not a boolean value"@,
        FailureModel::PolicyViolation(Policy::SourcesFrozen) =>
            "sources cannot be changed after a layer has been created"@,
        FailureModel::SourceParse(SourceFault::Blank) => "value must not be empty or whitespace"@,
        FailureModel::SourceParse(SourceFault::Shape) =>
            "expected [1], `dir` or `file` key in table"@,
        FailureModel::EmptySourceName => "source name must not be empty"@,
        FailureModel::DuplicateSourceName { name } => "source name `"@ + name + "` already exists"@,
        FailureModel::EmptyCommand => "cannot execute empty command"@,
        FailureModel::MissingPathPart => "at least one path part must be provided"@,
        FailureModel::OverrideAlreadySet => "failed to set config override path"@,
        FailureModel::ModuleName { segment } => "module part `"@ + segment
            + "` must start with a letter and hold only letters, digits, - and _"@,
        FailureModel::PluginLoad { message } => message,
        FailureModel::ProcessSpawn { message } => message,
    }
}

/// The name of a kind, as the guest runtime writes it.
pub fn kind_text(kind: Kind) -> (out: &'static str)
    ensures
        out@ == kind_name(kind),
{
    match kind {
        Kind::Nil => "nil",
        Kind::Boolean => "boolean",
        Kind::LightUserData => "lightuserdata",
        Kind::Integer => "integer",
        Kind::Number => "number",
        Kind::String => "string",
        Kind::Table => "table",
        Kind::Function => "function",
        Kind::Thread => "thread",
        Kind::UserData => "userdata",
        Kind::Error => "error",
    }
}

fn framed(before: &str, inner: &str, after: &str) -> (out: String)
    ensures
        out@ == before@ + inner@ + after@,
{
    let mut acc: Vec<char> = Vec::new();
    extend_str(&mut acc, before);
    extend_str(&mut acc, inner);
    extend_str(&mut acc, after);
    string_of(&acc)
}

impl Failure {
    /// The text of the failure, as it is shown to the user.
    pub fn message(&self) -> (out: String)
        ensures
            out@ == message_of(self@),
    {
        match self {
            Failure::Conversion { from, to } => {
                let mut acc: Vec<char> = Vec::new();
                extend_str(&mut acc, "error converting Lua ");
                extend_str(&mut acc, kind_text(*from));
                extend_str(&mut acc, " to ");
                match to {
                    Target::Source => {
                        extend_str(&mut acc, "Source");
                        extend_str(&mut acc, " (");
                        extend_str(&mut acc, "expected a table or string value");
                    },
                    Target::Path => {
                        extend_str(&mut acc, "Path");
                        extend_str(&mut acc, " (");
                        extend_str(&mut acc, "expected a string value");
                    },
                }
                extend_str(&mut acc, ")");
                string_of(&acc)
            },
            Failure::Inflexible { from, wanted } => {
                let mut acc: Vec<char> = Vec::new();
                extend_str(&mut acc, "error converting Lua ");
                extend_str(&mut acc, kind_text(*from));
                extend_str(&mut acc, " to ");
                match wanted {
                    Wanted::Boolean => {
                        extend_str(&mut acc, "bool");
                        extend_str(&mut acc, " (");
                        extend_str(&mut acc, "expected bool or function returning a bool");
                    },
                    Wanted::Text => {
                        extend_str(&mut acc, "String");
                        extend_str(&mut acc, " (");
                        extend_str(&mut acc, "expected string or function returning a string");
                    },
                    Wanted::Integer => {
                        extend_str(&mut acc, "i64");
                        extend_str(&mut acc, " (");
                        extend_str(&mut acc, "expected integer or function returning a integer");
                    },
                    Wanted::Number => {
                        extend_str(&mut acc, "f64");
                        extend_str(&mut acc, " (");
                        extend_str(&mut acc, "expected integer or function returning a integer");
                    },
                    Wanted::Table => {
                        extend_str(&mut acc, "Table");
                        extend_str(&mut acc, " (");
                        extend_str(&mut acc, "expected table or function returning a table");
                    },
                }
                extend_str(&mut acc, ")");
                string_of(&acc)
            },
            Failure::NumberOutOfRange => "value is not representable as i64 or f64".to_owned(),
            Failure::Malformed { message } => message.clone(),
            Failure::NamespaceConflict { segment, kind } => {
                let mut acc: Vec<char> = Vec::new();
                extend_str(&mut acc, "cannot create table `");
                extend_str(&mut acc, segment.as_str());
                extend_str(&mut acc, "`, value exists with type `");
                extend_str(&mut acc, kind_text(*kind));
                extend_str(&mut acc, "`");
                string_of(&acc)
            },
            Failure::EmptyModulePath => "module parts must not be empty".to_owned(),
            Failure::RegistryTypeConflict { key } => framed(
                "registry already contains `",
                key.as_str(),
                "` and is not a boolean value",
            ),
            Failure::PolicyViolation(Policy::SourcesFrozen) =>
                "sources cannot be changed after a layer has been created".to_owned(),
            Failure::SourceParse(SourceFault::Blank) =>
                "value must not be empty or whitespace".to_owned(),
            Failure::SourceParse(SourceFault::Shape) =>
                "expected [1], `dir` or `file` key in table".to_owned(),
            Failure::EmptySourceName => "source name must not be empty".to_owned(),
            Failure::DuplicateSourceName { name } => framed(
                "source name `",
                name.as_str(),
                "` already exists",
            ),
            Failure::EmptyCommand => "cannot execute empty command".to_owned(),
            Failure::MissingPathPart => "at least one path part must be provided".to_owned(),
            Failure::OverrideAlreadySet => "failed to set config override path".to_owned(),
            Failure::ModuleName { segment } => framed(
                "module part `",
                segment.as_str(),
                "` must start with a letter and hold only letters, digits, - and _",
            ),
            Failure::PluginLoad { message } => message.clone(),
            Failure::ProcessSpawn { message } => message.clone(),
        }
    }
}

} // verus!
