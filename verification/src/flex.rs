//! Values that may be given directly or as a function that returns them.

use vstd::prelude::*;
use crate::failure::{Failure, FailureModel};
use crate::value::{kind_of, GuestModel, GuestValue, Kind};

verus! {

/// The kind of value that is wanted.
#[derive(Clone, Copy, Debug, PartialEq, Eq, Structural)]
pub enum Wanted {
    Boolean,
    Text,
    Integer,
    Number,
    Table,
}

/// What to do with a value that may be flexible.
#[derive(Debug, PartialEq, Eq)]
pub enum Flex {
    /// The value is of the wanted kind: take it as it is.
    Take,
    /// The value is a function: call it, and convert what it returns.
    Call,
    /// The value is neither.
    Refuse(Failure),
}

/// Mathematical view of a [`Flex`].
pub enum FlexModel {
    Take,
    Call,
    Refuse(FailureModel),
}

impl View for Flex {
    type V = FlexModel;

    open spec fn view(&self) -> FlexModel {
        match self {
            Flex::Take => FlexModel::Take,
            Flex::Call => FlexModel::Call,
            Flex::Refuse(e) => FlexModel::Refuse(e@),
        }
    }
}

/// The kind of guest value that is taken as it is.
pub open spec fn kind_wanted(wanted: Wanted) -> Kind {
    match wanted {
        Wanted::Boolean => Kind::Boolean,
        Wanted::Text => Kind::String,
        Wanted::Integer => Kind::Integer,
        Wanted::Number => Kind::Number,
        Wanted::Table => Kind::Table,
    }
}

/// What to do with a value: take it where it is of the wanted kind, call
/// it where it is a function, refuse it otherwise.
pub open spec fn flex_of(value: GuestModel, wanted: Wanted) -> FlexModel {
    if kind_of(value) == kind_wanted(wanted) {
        FlexModel::Take
    } else if kind_of(value) == Kind::Function {
        FlexModel::Call
    } else {
        FlexModel::Refuse(FailureModel::Inflexible { from: kind_of(value), wanted })
    }
}

/// Decides what to do with a value that may be given directly or as a
/// function that returns it.
pub fn flex_value(value: &GuestValue, wanted: Wanted) -> (out: Flex)
    ensures
        out@ == flex_of(value@, wanted),
{
    let kind = value.kind();
    let direct = match wanted {
        Wanted::Boolean => kind == Kind::Boolean,
        Wanted::Text => kind == Kind::String,
        Wanted::Integer => kind == Kind::Integer,
        Wanted::Number => kind == Kind::Number,
        Wanted::Table => kind == Kind::Table,
    };
    if direct {
        Flex::Take
    } else if kind == Kind::Function {
        Flex::Call
    } else {
        Flex::Refuse(Failure::Inflexible { from: kind, wanted })
    }
}

/// As [`flex_value`], with a refusal turned into `None`.
pub fn maybe_flex_value(value: &GuestValue, wanted: Wanted) -> (out: Option<Flex>)
    ensures
        match out {
            Some(f) => f@ == flex_of(value@, wanted) && !(f@ is Refuse),
            None => flex_of(value@, wanted) is Refuse,
        },
{
    match flex_value(value, wanted) {
        Flex::Refuse(_) => None,
        other => Some(other),
    }
}

} // verus!
