//! Conversion between a [`Source`] and its guest representation.
//!
//! A repository is a plain guest string. A directory is the table
//! `{dir = path}` and a file the table `{file = path}`. Reading accepts a
//! little more than writing produces: a table whose first positional entry is
//! text is read as that text, whatever else the table holds.

use vstd::prelude::*;
use crate::failure::{Failure, FailureModel, SourceFault, Target};
use crate::source::{valid, Source, SourceModel};
use crate::text::is_blank;
use crate::value::{
    as_text, kind_of, lemma_find, lookup, EntryModel, GuestModel, GuestValue, KeyModel, Table,
};

verus! {

/// The guest representation of a source.
pub open spec fn encode(s: SourceModel) -> GuestModel {
    match s {
        SourceModel::Repo(r) => GuestModel::Str(r),
        SourceModel::Directory(d) => GuestModel::Table(
            seq![EntryModel { key: KeyModel::Name("dir"@), value: GuestModel::Str(d) }],
        ),
        SourceModel::File(f) => GuestModel::Table(
            seq![EntryModel { key: KeyModel::Name("file"@), value: GuestModel::Str(f) }],
        ),
    }
}

/// A repository identifier read from text: blank text is refused.
pub open spec fn decode_text(s: Seq<char>) -> Result<SourceModel, FailureModel> {
    if is_blank(s) {
        Err(FailureModel::SourceParse(SourceFault::Blank))
    } else {
        Ok(SourceModel::Repo(s))
    }
}

/// A source read from a table: the first positional entry, then `dir`, then
/// `file`; the first of them that is text decides, and the rest is ignored.
pub open spec fn decode_table(t: Seq<EntryModel>) -> Result<SourceModel, FailureModel> {
    if let Some(s) = as_text(lookup(t, KeyModel::Index(1))) {
        decode_text(s)
    } else if let Some(d) = as_text(lookup(t, KeyModel::Name("dir"@))) {
        Ok(SourceModel::Directory(d))
    } else if let Some(f) = as_text(lookup(t, KeyModel::Name("file"@))) {
        Ok(SourceModel::File(f))
    } else {
        Err(FailureModel::SourceParse(SourceFault::Shape))
    }
}

/// A source read from a guest value: a string, or a table of a known shape.
pub open spec fn decode(v: GuestModel) -> Result<SourceModel, FailureModel> {
    match v {
        GuestModel::Str(s) => decode_text(s),
        GuestModel::Table(t) => decode_table(t),
        _ => Err(FailureModel::Conversion { from: kind_of(v), to: Target::Source }),
    }
}

/// Whether an outcome is the one a model-level result describes.
pub open spec fn source_outcome(r: Result<Source, Failure>, m: Result<SourceModel, FailureModel>) -> bool {
    match r {
        Ok(s) => m == Ok::<SourceModel, FailureModel>(s@),
        Err(e) => m == Err::<SourceModel, FailureModel>(e@),
    }
}

/// Reading back what was written gives the source that was written.
pub proof fn lemma_round_trip(s: SourceModel)
    requires
        valid(s),
    ensures
        decode(encode(s)) == Ok::<SourceModel, FailureModel>(s),
{
    reveal_strlit("dir");
    reveal_strlit("file");
    match s {
        SourceModel::Repo(r) => {},
        SourceModel::Directory(d) => {
            let t = encode(s)->Table_0;
            lemma_find(t, KeyModel::Index(1));
            lemma_find(t, KeyModel::Name("dir"@));
        },
        SourceModel::File(f) => {
            let t = encode(s)->Table_0;
            assert("dir"@.len() != "file"@.len());
            lemma_find(t, KeyModel::Index(1));
            lemma_find(t, KeyModel::Name("dir"@));
            lemma_find(t, KeyModel::Name("file"@));
        },
    }
}

/// Whatever is read as a source is a valid source: a repository that was
/// read has an identifier that is not blank.
pub proof fn lemma_decode_valid(v: GuestModel)
    requires
        decode(v) is Ok,
    ensures
        valid(decode(v)->Ok_0),
{
}

/// A non-blank string always reads as the repository it names, and a blank
/// one never reads as a source.
pub proof fn lemma_decode_string(s: Seq<char>)
    ensures
        !is_blank(s) ==> decode(GuestModel::Str(s)) == Ok::<SourceModel, FailureModel>(
            SourceModel::Repo(s),
        ),
        is_blank(s) ==> decode(GuestModel::Str(s)) == Err::<SourceModel, FailureModel>(
            FailureModel::SourceParse(SourceFault::Blank),
        ),
{
}

fn read_table(t: &Table) -> (r: Result<Source, Failure>)
    ensures
        source_outcome(r, decode_table(t@)),
{
    if let Some(v) = t.get_index(1) {
        if let Some(s) = v.text() {
            return Source::from_str(s.as_str());
        }
    }
    if let Some(v) = t.get_name("dir") {
        if let Some(d) = v.text() {
            return Ok(Source::Directory(d));
        }
    }
    if let Some(v) = t.get_name("file") {
        if let Some(f) = v.text() {
            return Ok(Source::File(f));
        }
    }
    Err(Failure::SourceParse(SourceFault::Shape))
}

impl Source {
    /// Reads a source from a guest value.
    pub fn from_lua(value: &GuestValue) -> (r: Result<Source, Failure>)
        ensures
            source_outcome(r, decode(value@)),
    {
        match value {
            GuestValue::Str(s) => Source::from_str(s.as_str()),
            GuestValue::Table(t) => read_table(t),
            _ => Err(Failure::Conversion { from: value.kind(), to: Target::Source }),
        }
    }

    /// Writes a source as a guest value.
    pub fn into_lua(self) -> (v: GuestValue)
        ensures
            v@ == encode(self@),
    {
        match self {
            Source::Repo(r) => GuestValue::Str(r),
            Source::Directory(d) => {
                let mut t = Table::new();
                t.set_name("dir", GuestValue::Str(d));
                GuestValue::Table(t)
            },
            Source::File(f) => {
                let mut t = Table::new();
                t.set_name("file", GuestValue::Str(f));
                GuestValue::Table(t)
            },
        }
    }
}

} // verus!
