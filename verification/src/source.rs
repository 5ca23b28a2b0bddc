//! Where a set of files comes from: a repository, a directory or a file.

use vstd::prelude::*;
use crate::failure::{Failure, FailureModel, SourceFault};
use crate::text::{is_blank, lemma_split_nonempty, split, split_text, text_is_blank, views};

verus! {

/// A repository reference, a directory path or a file path.
///
/// Paths are `/`-separated text.
#[derive(Debug, PartialEq, Eq)]
pub enum Source {
    Repo(String),
    Directory(String),
    File(String),
}

/// Mathematical view of a [`Source`].
pub enum SourceModel {
    Repo(Seq<char>),
    Directory(Seq<char>),
    File(Seq<char>),
}

impl View for Source {
    type V = SourceModel;

    open spec fn view(&self) -> SourceModel {
        match self {
            Source::Repo(r) => SourceModel::Repo(r@),
            Source::Directory(d) => SourceModel::Directory(d@),
            Source::File(f) => SourceModel::File(f@),
        }
    }
}

/// A source is valid when a repository identifier is not blank.
pub open spec fn valid(s: SourceModel) -> bool {
    s matches SourceModel::Repo(r) ==> !is_blank(r)
}

/// A path piece that names something: not empty and not `.`.
pub open spec fn names_something(piece: Seq<char>) -> bool {
    piece.len() > 0 && piece != seq!['.']
}

/// The last of the pieces that names something, if any does.
pub open spec fn last_naming(pieces: Seq<Seq<char>>) -> Option<Seq<char>>
    decreases pieces.len(),
{
    if pieces.len() == 0 {
        None
    } else if names_something(pieces.last()) {
        Some(pieces.last())
    } else {
        last_naming(pieces.drop_last())
    }
}

/// The final component of a path when it is an ordinary name, else empty:
/// empty pieces and `.` are passed over, and a path that ends in `..` or
/// names nothing has no such component.
pub open spec fn final_component(path: Seq<char>) -> Seq<char> {
    match last_naming(split(path, '/')) {
        Some(piece) => if piece == seq!['.', '.'] {
            Seq::empty()
        } else {
            piece
        },
        None => Seq::empty(),
    }
}

/// The short label of a source: for a repository what follows its last `/`
/// (all of it when there is none), for a path its final component.
pub open spec fn name_of(s: SourceModel) -> Seq<char> {
    match s {
        SourceModel::Repo(r) => split(r, '/').last(),
        SourceModel::Directory(d) => final_component(d),
        SourceModel::File(f) => final_component(f),
    }
}

/// The text a source is shown as.
pub open spec fn text_of(s: SourceModel) -> Seq<char> {
    match s {
        SourceModel::Repo(r) => r,
        SourceModel::Directory(d) => d,
        SourceModel::File(f) => f,
    }
}

fn is_dot(piece: &str) -> (r: bool)
    ensures
        r == (piece@ == seq!['.']),
{
    let r = crate::text::same_text(piece, ".");
    proof {
        reveal_strlit(".");
        assert("."@ =~= seq!['.']);
    }
    r
}

fn is_dot_dot(piece: &str) -> (r: bool)
    ensures
        r == (piece@ == seq!['.', '.']),
{
    let r = crate::text::same_text(piece, "..");
    proof {
        reveal_strlit("..");
        assert(".."@ =~= seq!['.', '.']);
    }
    r
}

/// The final component of a `/`-separated path, or the empty string.
pub fn path_name(path: &str) -> (out: String)
    ensures
        out@ == final_component(path@),
{
    let pieces = split_text(path, '/');
    let mut i: usize = pieces.len();
    assert(views(pieces@).take(i as int) == views(pieces@));
    while i > 0
        invariant
            i <= pieces.len(),
            views(pieces@) == split(path@, '/'),
            last_naming(views(pieces@)) == last_naming(views(pieces@).take(i as int)),
        decreases i,
    {
        let ghost upto = views(pieces@).take(i as int);
        assert(upto.last() == pieces@[i - 1]@);
        assert(upto.drop_last() == views(pieces@).take(i - 1));
        let piece = pieces[i - 1].as_str();
        if !piece.is_empty() && !is_dot(piece) {
            assert(names_something(piece@));
            if is_dot_dot(piece) {
                return String::new();
            }
            return pieces[i - 1].clone();
        }
        assert(!names_something(piece@));
        i = i - 1;
    }
    assert(views(pieces@).take(0).len() == 0);
    String::new()
}

impl Source {
    /// The short label of the source. It may be empty.
    pub fn name(&self) -> (out: String)
        ensures
            out@ == name_of(self@),
    {
        match self {
            Source::Repo(r) => {
                let pieces = split_text(r.as_str(), '/');
                proof {
                    lemma_split_nonempty(r@, '/');
                }
                pieces[pieces.len() - 1].clone()
            },
            Source::Directory(d) => path_name(d.as_str()),
            Source::File(f) => path_name(f.as_str()),
        }
    }

    /// Reads a repository identifier. A blank one is refused.
    pub fn from_str(s: &str) -> (r: Result<Source, Failure>)
        ensures
            is_blank(s@) ==> (r matches Err(e) && e@ == FailureModel::SourceParse(SourceFault::Blank)),
            !is_blank(s@) ==> (r matches Ok(v) && v@ == SourceModel::Repo(s@)),
    {
        if text_is_blank(s) {
            Err(Failure::SourceParse(SourceFault::Blank))
        } else {
            Ok(Source::Repo(s.to_owned()))
        }
    }

    /// The text the source is shown as: the identifier or the path.
    pub fn to_text(&self) -> (out: String)
        ensures
            out@ == text_of(self@),
    {
        match self {
            Source::Repo(r) => r.clone(),
            Source::Directory(d) => d.clone(),
            Source::File(f) => f.clone(),
        }
    }

    /// A copy of the source.
    pub fn duplicate(&self) -> (out: Source)
        ensures
            out@ == self@,
    {
        match self {
            Source::Repo(r) => Source::Repo(r.clone()),
            Source::Directory(d) => Source::Directory(d.clone()),
            Source::File(f) => Source::File(f.clone()),
        }
    }
}

} // verus!
