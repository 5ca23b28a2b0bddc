//! String and path utilities offered to guest code.

use vstd::prelude::*;
use crate::config::{below, join_path};
use crate::failure::{Failure, FailureModel, Target};
use crate::text::{chars_of, is_prefix, is_space, occurs_at, string_of, views};
use crate::value::{kind_of, GuestModel, GuestValue};

verus! {

/// Whether `pat` occurs in `s` at position `at`.
pub open spec fn occurs(s: Seq<char>, pat: Seq<char>, at: int) -> bool {
    0 <= at && at + pat.len() <= s.len() && s.subrange(at, at + pat.len()) == pat
}

/// The position of the first occurrence of `pat` in `s` at or after `from`.
pub open spec fn first_occurrence(s: Seq<char>, pat: Seq<char>, from: int) -> Option<int>
    decreases s.len() - from,
{
    if from < 0 || from + pat.len() > s.len() {
        None
    } else if occurs(s, pat, from) {
        Some(from)
    } else if from >= s.len() {
        None
    } else {
        first_occurrence(s, pat, from + 1)
    }
}

/// The pieces of `s` from position `from` on, between the occurrences of
/// the non-empty pattern `pat`, found from left to right without overlap.
pub open spec fn pieces_from(s: Seq<char>, pat: Seq<char>, from: int) -> Seq<Seq<char>>
    decreases s.len() - from,
{
    if pat.len() == 0 || from < 0 || from > s.len() {
        Seq::empty()
    } else {
        match first_occurrence(s, pat, from) {
            Some(at) => if from <= at && at + pat.len() <= s.len() {
                seq![s.subrange(from, at)] + pieces_from(s, pat, at + pat.len())
            } else {
                Seq::empty()
            },
            None => seq![s.subrange(from, s.len() as int)],
        }
    }
}

/// The pieces that the empty pattern gives: an empty piece, each character
/// as a piece of its own, and an empty piece.
pub open spec fn pieces_by_char(s: Seq<char>) -> Seq<Seq<char>> {
    seq![Seq::<char>::empty()] + Seq::new(s.len(), |i: int| seq![s[i]]) + seq![Seq::<char>::empty()]
}

/// The pieces of `s` between occurrences of `pat`.
pub open spec fn pieces(s: Seq<char>, pat: Seq<char>) -> Seq<Seq<char>> {
    if pat.len() == 0 {
        pieces_by_char(s)
    } else {
        pieces_from(s, pat, 0)
    }
}

/// The pieces that are kept: all of them, or only those that are not empty.
pub open spec fn kept(all: Seq<Seq<char>>, remove_empty: bool) -> Seq<Seq<char>> {
    if remove_empty {
        all.filter(|p: Seq<char>| p.len() > 0)
    } else {
        all
    }
}

/// `s` without the white space at its start.
pub open spec fn trimmed_start(s: Seq<char>) -> Seq<char>
    decreases s.len(),
{
    if s.len() > 0 && is_space(s[0]) {
        trimmed_start(s.drop_first())
    } else {
        s
    }
}

/// `s` without the white space at its end.
pub open spec fn trimmed_end(s: Seq<char>) -> Seq<char>
    decreases s.len(),
{
    if s.len() > 0 && is_space(s.last()) {
        trimmed_end(s.drop_last())
    } else {
        s
    }
}

/// `s` without the white space at its start and at its end.
pub open spec fn trimmed(s: Seq<char>) -> Seq<char> {
    trimmed_end(trimmed_start(s))
}

/// `base` continued by `part`: a part that starts at the root takes the
/// place of the base, any other part goes below it.
pub open spec fn continued(base: Seq<char>, part: Seq<char>, sep: Seq<char>) -> Seq<char> {
    if sep.len() > 0 && is_prefix(sep, part) {
        part
    } else {
        below(base, part, sep)
    }
}

/// The parts joined into one path, from the first `n` of them.
pub open spec fn joined_path(parts: Seq<Seq<char>>, sep: Seq<char>, n: nat) -> Seq<char>
    decreases n,
{
    if n == 0 || n > parts.len() {
        Seq::empty()
    } else if n == 1 {
        parts[0]
    } else {
        continued(joined_path(parts, sep, (n - 1) as nat), parts[n - 1], sep)
    }
}

/// The text of a value that is to be a path part: only a string is one.
pub open spec fn part_of(v: GuestModel) -> Result<Seq<char>, FailureModel> {
    match v {
        GuestModel::Str(s) => Ok(s),
        _ => Err(FailureModel::Conversion { from: kind_of(v), to: Target::Path }),
    }
}

/// The texts of the first `n` values, or the failure of the first that is no string.
pub open spec fn parts_of(values: Seq<GuestModel>, n: nat) -> Result<Seq<Seq<char>>, FailureModel>
    decreases n,
{
    if n == 0 || n > values.len() {
        Ok(Seq::empty())
    } else {
        match parts_of(values, (n - 1) as nat) {
            Err(e) => Err(e),
            Ok(parts) => match part_of(values[n - 1]) {
                Err(e) => Err(e),
                Ok(p) => Ok(parts.push(p)),
            },
        }
    }
}

/// What joining path parts gives: a failure without parts or where a
/// value is no string, else the parts joined from left to right.
pub open spec fn joinpath_of(values: Seq<GuestModel>, sep: Seq<char>) -> Result<
    Seq<char>,
    FailureModel,
> {
    if values.len() == 0 {
        Err(FailureModel::MissingPathPart)
    } else {
        match parts_of(values, values.len()) {
            Err(e) => Err(e),
            Ok(parts) => Ok(joined_path(parts, sep, parts.len())),
        }
    }
}

/// Whether a string starts with a prefix.
pub fn startswith(value: &str, pat: &str) -> (r: bool)
    ensures
        r == is_prefix(pat@, value@),
{
    crate::text::starts_with(value, pat)
}

/// Whether a string ends with a suffix.
pub fn endswith(value: &str, pat: &str) -> (r: bool)
    ensures
        r == crate::text::is_suffix(pat@, value@),
{
    crate::text::ends_with(value, pat)
}

/// A string without the white space around it.
pub fn trim(value: &str) -> (out: String)
    ensures
        out@ == trimmed(value@),
{
    let chars = chars_of(value);
    let mut start: usize = 0;
    assert(chars@.subrange(0, chars.len() as int) == chars@);
    while start < chars.len() && crate::text::char_is_space(chars[start])
        invariant
            start <= chars.len(),
            trimmed_start(chars@) == trimmed_start(chars@.subrange(start as int, chars.len() as int)),
        decreases chars.len() - start,
    {
        let ghost rest = chars@.subrange(start as int, chars.len() as int);
        assert(rest.drop_first() == chars@.subrange(start + 1, chars.len() as int));
        start = start + 1;
    }
    let ghost middle = chars@.subrange(start as int, chars.len() as int);
    assert(trimmed_start(chars@) == middle);
    let mut end: usize = chars.len();
    while end > start && crate::text::char_is_space(chars[end - 1])
        invariant
            start <= end <= chars.len(),
            middle == chars@.subrange(start as int, chars.len() as int),
            trimmed_end(middle) == trimmed_end(chars@.subrange(start as int, end as int)),
        decreases end,
    {
        let ghost rest = chars@.subrange(start as int, end as int);
        assert(rest.drop_last() == chars@.subrange(start as int, end - 1));
        end = end - 1;
    }
    let mut out: Vec<char> = Vec::new();
    let mut i: usize = start;
    while i < end
        invariant
            start <= i <= end <= chars.len(),
            out@ == chars@.subrange(start as int, i as int),
        decreases end - i,
    {
        out.push(chars[i]);
        i = i + 1;
    }
    string_of(&out)
}

fn copy_range(chars: &Vec<char>, from: usize, to: usize) -> (out: String)
    requires
        from <= to <= chars.len(),
    ensures
        out@ == chars@.subrange(from as int, to as int),
{
    let mut out: Vec<char> = Vec::new();
    let mut i: usize = from;
    while i < to
        invariant
            from <= i <= to <= chars.len(),
            out@ == chars@.subrange(from as int, i as int),
        decreases to - i,
    {
        out.push(chars[i]);
        i = i + 1;
    }
    string_of(&out)
}

fn find_from(s: &Vec<char>, pat: &Vec<char>, from: usize) -> (r: Option<usize>)
    requires
        from <= s.len(),
    ensures
        match r {
            Some(at) => first_occurrence(s@, pat@, from as int) == Some(at as int) && from <= at
                && at + pat.len() <= s.len(),
            None => first_occurrence(s@, pat@, from as int) is None,
        },
{
    if pat.len() > s.len() {
        return None;
    }
    let limit = s.len() - pat.len();
    let mut at: usize = from;
    while at <= limit
        invariant
            from <= at,
            pat.len() <= s.len(),
            limit == s.len() - pat.len(),
            first_occurrence(s@, pat@, from as int) == first_occurrence(s@, pat@, at as int),
        decreases limit + 1 - at,
    {
        if occurs_at(s, pat, at) {
            return Some(at);
        }
        if at == limit {
            assert(first_occurrence(s@, pat@, at + 1) is None);
            return None;
        }
        at = at + 1;
    }
    None
}

fn split_all(value: &str, pat: &str) -> (out: Vec<String>)
    ensures
        views(out@) == pieces(value@, pat@),
{
    let s = chars_of(value);
    let p = chars_of(pat);
    let mut out: Vec<String> = Vec::new();
    if p.len() == 0 {
        out.push(String::new());
        let mut i: usize = 0;
        while i < s.len()
            invariant
                i <= s.len(),
                s@ == value@,
                views(out@) == seq![Seq::<char>::empty()] + Seq::new(
                    i as nat,
                    |k: int| seq![value@[k]],
                ),
            decreases s.len() - i,
        {
            let piece = copy_range(&s, i, i + 1);
            let ghost before = out@;
            out.push(piece);
            assert(views(out@) == views(before).push(piece@));
            assert(piece@ == seq![value@[i as int]]);
            i = i + 1;
        }
        let ghost before = out@;
        out.push(String::new());
        assert(views(out@) == views(before).push(Seq::<char>::empty()));
        return out;
    }
    let mut from: usize = 0;
    loop
        invariant
            from <= s.len(),
            p.len() > 0,
            s@ == value@,
            p@ == pat@,
            pieces_from(s@, p@, 0) == views(out@) + pieces_from(s@, p@, from as int),
        decreases s.len() - from,
    {
        match find_from(&s, &p, from) {
            Some(at) => {
                let piece = copy_range(&s, from, at);
                let ghost before = out@;
                out.push(piece);
                assert(views(out@) == views(before).push(piece@));
                from = at + p.len();
            },
            None => {
                let piece = copy_range(&s, from, s.len());
                let ghost before = out@;
                out.push(piece);
                assert(views(out@) == views(before).push(piece@));
                return out;
            },
        }
    }
}

/// Splits a string at the occurrences of another string, keeping the
/// empty pieces unless `remove_empty` says otherwise.
pub fn split(value: &str, pat: &str, remove_empty: Option<bool>) -> (out: Vec<String>)
    ensures
        views(out@) == kept(pieces(value@, pat@), remove_empty == Some(true)),
{
    let all = split_all(value, pat);
    let drop_empty = match remove_empty {
        Some(b) => b,
        None => false,
    };
    if !drop_empty {
        return all;
    }
    let ghost keep = |p: Seq<char>| p.len() > 0;
    let mut out: Vec<String> = Vec::new();
    let mut i: usize = 0;
    assert(views(all@).take(0).filter(keep) == Seq::<Seq<char>>::empty());
    while i < all.len()
        invariant
            i <= all@.len(),
            keep == (|p: Seq<char>| p.len() > 0),
            views(out@) == views(all@).take(i as int).filter(keep),
        decreases all.len() - i,
    {
        let ghost upto = views(all@).take(i + 1);
        assert(upto.drop_last() == views(all@).take(i as int));
        assert(upto.last() == all@[i as int]@);
        proof {
            reveal(Seq::filter);
        }
        if !all[i].as_str().is_empty() {
            let piece = all[i].clone();
            let ghost before = out@;
            out.push(piece);
            assert(views(out@) == views(before).push(piece@));
        }
        i = i + 1;
    }
    assert(views(all@).take(all.len() as int) == views(all@));
    out
}

/// The text of a value that is to be a path part.
pub fn lua_value_to_pathbuf(value: &GuestValue) -> (r: Result<String, Failure>)
    ensures
        match r {
            Ok(p) => part_of(value@) == Ok::<Seq<char>, FailureModel>(p@),
            Err(e) => part_of(value@) == Err::<Seq<char>, FailureModel>(e@),
        },
{
    match value {
        GuestValue::Str(s) => Ok(s.clone()),
        _ => Err(Failure::Conversion { from: value.kind(), to: Target::Path }),
    }
}

/// Puts `part` after `base` as a path is continued.
pub fn continue_path(base: &str, part: &str, sep: &str) -> (out: String)
    ensures
        out@ == continued(base@, part@, sep@),
{
    if !sep.is_empty() && crate::text::starts_with(part, sep) {
        part.to_owned()
    } else {
        join_path(base, part, sep)
    }
}

/// Joins path parts, each of which must be a string, from left to right.
pub fn joinpath(values: &Vec<GuestValue>, sep: &str) -> (r: Result<String, Failure>)
    ensures
        match r {
            Ok(p) => joinpath_of(crate::sources::given_views(values@), sep@) == Ok::<
                Seq<char>,
                FailureModel,
            >(p@),
            Err(e) => joinpath_of(crate::sources::given_views(values@), sep@) == Err::<
                Seq<char>,
                FailureModel,
            >(e@),
        },
{
    let ghost models = crate::sources::given_views(values@);
    if values.len() == 0 {
        return Err(Failure::MissingPathPart);
    }
    let ghost mut parts: Seq<Seq<char>> = Seq::empty();
    let mut path = String::new();
    let mut i: usize = 0;
    while i < values.len()
        invariant
            i <= values@.len(),
            models == crate::sources::given_views(values@),
            parts_of(models, i as nat) == Ok::<Seq<Seq<char>>, FailureModel>(parts),
            parts.len() == i,
            path@ == joined_path(parts, sep@, i as nat),
        decreases values.len() - i,
    {
        assert(models[i as int] == values@[i as int]@);
        let part = match lua_value_to_pathbuf(&values[i]) {
            Ok(p) => p,
            Err(e) => {
                proof {
                    lemma_parts_fail(models, (i + 1) as nat, models.len());
                }
                return Err(e);
            },
        };
        let ghost before = parts;
        proof {
            parts = parts.push(part@);
            lemma_joined_path_prefix(before, parts, sep@, i as nat);
        }
        if i == 0 {
            path = part;
        } else {
            path = continue_path(path.as_str(), part.as_str(), sep);
        }
        i = i + 1;
    }
    Ok(path)
}

/// A failure among the first `n` values is the failure of any longer run.
pub proof fn lemma_parts_fail(values: Seq<GuestModel>, n: nat, upto: nat)
    requires
        n <= upto <= values.len(),
        parts_of(values, n) is Err,
    ensures
        parts_of(values, upto) == parts_of(values, n),
    decreases upto - n,
{
    if n < upto {
        lemma_parts_fail(values, n, (upto - 1) as nat);
    }
}

/// Joining the first `n` parts does not look at the parts after them.
pub proof fn lemma_joined_path_prefix(a: Seq<Seq<char>>, b: Seq<Seq<char>>, sep: Seq<char>, n: nat)
    requires
        n <= a.len() <= b.len(),
        forall|i: int| 0 <= i < a.len() ==> a[i] == b[i],
    ensures
        joined_path(a, sep, n) == joined_path(b, sep, n),
    decreases n,
{
    if n > 1 {
        lemma_joined_path_prefix(a, b, sep, (n - 1) as nat);
    }
}

} // verus!
