//! Nested containers addressed by dotted names.
//!
//! `a.b.c` names the container `c` inside `b` inside `a`. Containers are
//! guest tables; every segment but the last of a name must lead to a
//! container, never to another kind of value.

use vstd::prelude::*;
use crate::failure::{Failure, FailureModel};
use crate::text::{lemma_split_concat, lemma_split_nonempty, split, split_text, views};
use crate::value::{
    assign, deeply_well_formed, find, kind_of, lemma_assign_deeply_well_formed,
    lemma_assign_lookup, lemma_find, lookup, Entry, EntryModel, GuestModel, GuestValue, Key,
    KeyModel, Kind, Table,
};

verus! {

/// The segments of a dotted name, or `None` where the name is empty or has
/// an empty segment that is neither its first nor its last.
pub open spec fn path_of(name: Seq<char>) -> Option<Seq<Seq<char>>> {
    let path = split(name, '.');
    if name.len() == 0 || exists|i: int| 0 < i < path.len() - 1 && (#[trigger] path[i]).len() == 0 {
        None
    } else {
        Some(path)
    }
}

/// The container to descend into for a segment: a new empty one where the
/// segment is free, the one that is there, or nothing where the segment is
/// taken by another kind of value.
pub open spec fn step_into(held: GuestModel) -> Option<Seq<EntryModel>> {
    match held {
        GuestModel::Nil => Some(Seq::empty()),
        GuestModel::Table(c) => Some(c),
        _ => None,
    }
}

/// What a segment is to a request for a container, by the kind of what it holds.
#[derive(Clone, Copy, Debug, PartialEq, Eq, Structural)]
pub enum Segment {
    /// Nothing is there: a container is created.
    Free,
    /// A container is there: it is the one.
    Container,
    /// Something else is there, of this kind.
    Taken(Kind),
}

/// What a segment is, by the kind of what it holds.
pub open spec fn segment_of(kind: Kind) -> Segment {
    match kind {
        Kind::Nil => Segment::Free,
        Kind::Table => Segment::Container,
        other => Segment::Taken(other),
    }
}

/// Decides what a segment is to a request for a container. A segment is
/// taken exactly when what it holds cannot be descended into.
pub fn classify_segment(kind: Kind) -> (out: Segment)
    ensures
        out == segment_of(kind),
        forall|held: GuestModel|
            kind_of(held) == kind ==> ((#[trigger] step_into(held)) is None <==> out is Taken),
{
    match kind {
        Kind::Nil => Segment::Free,
        Kind::Table => Segment::Container,
        other => Segment::Taken(other),
    }
}

/// The table after every segment of `path` leads to a container, or the
/// conflict that the first taken segment raises.
pub open spec fn ensure(t: Seq<EntryModel>, path: Seq<Seq<char>>) -> Result<
    Seq<EntryModel>,
    FailureModel,
>
    decreases path.len(),
{
    if path.len() == 0 {
        Ok(t)
    } else {
        let key = KeyModel::Name(path[0]);
        match step_into(lookup(t, key)) {
            Some(child) => match ensure(child, path.drop_first()) {
                Ok(c) => Ok(assign(t, key, GuestModel::Table(c))),
                Err(e) => Err(e),
            },
            None => Err(
                FailureModel::NamespaceConflict { segment: path[0], kind: kind_of(lookup(t, key)) },
            ),
        }
    }
}

/// The table after the last segment of `path` is given `value`, with the
/// segments before it leading to containers as in [`ensure`]. What the last
/// segment held before does not matter.
pub open spec fn put(t: Seq<EntryModel>, path: Seq<Seq<char>>, value: GuestModel) -> Result<
    Seq<EntryModel>,
    FailureModel,
>
    decreases path.len(),
{
    if path.len() == 0 {
        Ok(t)
    } else if path.len() == 1 {
        Ok(assign(t, KeyModel::Name(path[0]), value))
    } else {
        let key = KeyModel::Name(path[0]);
        match step_into(lookup(t, key)) {
            Some(child) => match put(child, path.drop_first(), value) {
                Ok(c) => Ok(assign(t, key, GuestModel::Table(c))),
                Err(e) => Err(e),
            },
            None => Err(
                FailureModel::NamespaceConflict { segment: path[0], kind: kind_of(lookup(t, key)) },
            ),
        }
    }
}

/// The container that `path` leads to, if every segment leads to one.
pub open spec fn container_at(t: Seq<EntryModel>, path: Seq<Seq<char>>) -> Option<Seq<EntryModel>>
    decreases path.len(),
{
    if path.len() == 0 {
        Some(t)
    } else {
        match lookup(t, KeyModel::Name(path[0])) {
            GuestModel::Table(c) => container_at(c, path.drop_first()),
            _ => None,
        }
    }
}

/// What `path` leads to: the value under its last segment in the container
/// that the segments before it lead to. Nil where nothing is there.
pub open spec fn value_at(t: Seq<EntryModel>, path: Seq<Seq<char>>) -> GuestModel
    decreases path.len(),
{
    if path.len() == 0 {
        GuestModel::Nil
    } else if path.len() == 1 {
        lookup(t, KeyModel::Name(path[0]))
    } else {
        match lookup(t, KeyModel::Name(path[0])) {
            GuestModel::Table(c) => value_at(c, path.drop_first()),
            _ => GuestModel::Nil,
        }
    }
}

/// What `ensure_container` does to a root, given the dotted name.
pub open spec fn ensure_container_spec(root: Seq<EntryModel>, name: Seq<char>) -> Result<
    Seq<EntryModel>,
    FailureModel,
> {
    match path_of(name) {
        Some(path) => ensure(root, path),
        None => Err(FailureModel::EmptyModulePath),
    }
}

/// What `set_nested` does to a root, given the dotted name and the value.
pub open spec fn set_nested_spec(root: Seq<EntryModel>, name: Seq<char>, value: GuestModel) -> Result<
    Seq<EntryModel>,
    FailureModel,
> {
    match path_of(name) {
        Some(path) => put(root, path, value),
        None => Err(FailureModel::EmptyModulePath),
    }
}

/// Storing under a key what the key already holds changes nothing.
pub proof fn lemma_assign_same(t: Seq<EntryModel>, key: KeyModel)
    requires
        !(lookup(t, key) is Nil),
    ensures
        assign(t, key, lookup(t, key)) == t,
{
    lemma_find(t, key);
    let i = find(t, key)->Some_0;
    assert(t.update(i, EntryModel { key, value: t[i].value }) =~= t);
}

/// Starting from an empty container nothing can be in the way.
pub proof fn lemma_ensure_fresh(path: Seq<Seq<char>>)
    ensures
        ensure(Seq::empty(), path) is Ok,
    decreases path.len(),
{
    if path.len() > 0 {
        lemma_find(Seq::<EntryModel>::empty(), KeyModel::Name(path[0]));
        lemma_ensure_fresh(path.drop_first());
    }
}

/// Starting from an empty container nothing can be in the way.
pub proof fn lemma_put_fresh(path: Seq<Seq<char>>, value: GuestModel)
    ensures
        put(Seq::empty(), path, value) is Ok,
    decreases path.len(),
{
    if path.len() > 1 {
        lemma_find(Seq::<EntryModel>::empty(), KeyModel::Name(path[0]));
        lemma_put_fresh(path.drop_first(), value);
    }
}

/// Once a path leads to a container, asking for it again changes nothing.
pub proof fn lemma_ensure_present(t: Seq<EntryModel>, path: Seq<Seq<char>>)
    requires
        container_at(t, path) is Some,
    ensures
        ensure(t, path) == Ok::<Seq<EntryModel>, FailureModel>(t),
    decreases path.len(),
{
    if path.len() > 0 {
        let key = KeyModel::Name(path[0]);
        let c = lookup(t, key)->Table_0;
        lemma_ensure_present(c, path.drop_first());
        lemma_assign_same(t, key);
    }
}

/// After a successful `ensure` the path leads to a container.
pub proof fn lemma_ensure_creates(t: Seq<EntryModel>, path: Seq<Seq<char>>)
    requires
        ensure(t, path) is Ok,
    ensures
        container_at(ensure(t, path)->Ok_0, path) is Some,
    decreases path.len(),
{
    if path.len() > 0 {
        let key = KeyModel::Name(path[0]);
        let child = step_into(lookup(t, key))->Some_0;
        let c = ensure(child, path.drop_first())->Ok_0;
        lemma_ensure_creates(child, path.drop_first());
        lemma_assign_lookup(t, key, GuestModel::Table(c), key);
    }
}

/// Creation is idempotent: a second request for the same path succeeds,
/// leaves the root as the first request left it, and so leads to the same
/// container.
pub proof fn lemma_ensure_idempotent(t: Seq<EntryModel>, path: Seq<Seq<char>>)
    requires
        ensure(t, path) is Ok,
    ensures
        ensure(ensure(t, path)->Ok_0, path) == ensure(t, path),
        container_at(ensure(ensure(t, path)->Ok_0, path)->Ok_0, path) == container_at(
            ensure(t, path)->Ok_0,
            path,
        ),
{
    lemma_ensure_creates(t, path);
    lemma_ensure_present(ensure(t, path)->Ok_0, path);
}

/// What a well-formed table holds under a key is well formed throughout.
pub proof fn lemma_lookup_deeply_well_formed(t: Seq<EntryModel>, key: KeyModel)
    requires
        deeply_well_formed(GuestModel::Table(t)),
    ensures
        deeply_well_formed(lookup(t, key)),
        step_into(lookup(t, key)) is Some ==> deeply_well_formed(
            GuestModel::Table(step_into(lookup(t, key))->Some_0),
        ),
{
    lemma_find(t, key);
}

/// Asking for containers keeps a root well formed throughout.
pub proof fn lemma_ensure_well_formed(t: Seq<EntryModel>, path: Seq<Seq<char>>)
    requires
        deeply_well_formed(GuestModel::Table(t)),
        ensure(t, path) is Ok,
    ensures
        deeply_well_formed(GuestModel::Table(ensure(t, path)->Ok_0)),
    decreases path.len(),
{
    if path.len() > 0 {
        let key = KeyModel::Name(path[0]);
        lemma_lookup_deeply_well_formed(t, key);
        let child = step_into(lookup(t, key))->Some_0;
        lemma_ensure_well_formed(child, path.drop_first());
        let c = ensure(child, path.drop_first())->Ok_0;
        lemma_assign_deeply_well_formed(t, key, GuestModel::Table(c));
    }
}

/// Storing a value that is well formed throughout keeps a root well
/// formed throughout.
pub proof fn lemma_put_well_formed(t: Seq<EntryModel>, path: Seq<Seq<char>>, value: GuestModel)
    requires
        deeply_well_formed(GuestModel::Table(t)),
        deeply_well_formed(value),
        put(t, path, value) is Ok,
    ensures
        deeply_well_formed(GuestModel::Table(put(t, path, value)->Ok_0)),
    decreases path.len(),
{
    if path.len() == 1 {
        lemma_assign_deeply_well_formed(t, KeyModel::Name(path[0]), value);
    } else if path.len() > 1 {
        let key = KeyModel::Name(path[0]);
        lemma_lookup_deeply_well_formed(t, key);
        let child = step_into(lookup(t, key))->Some_0;
        lemma_put_well_formed(child, path.drop_first(), value);
        let c = put(child, path.drop_first(), value)->Ok_0;
        lemma_assign_deeply_well_formed(t, key, GuestModel::Table(c));
    }
}

/// What was stored under a path is what the path leads to afterwards.
pub proof fn lemma_put_reads_back(t: Seq<EntryModel>, path: Seq<Seq<char>>, value: GuestModel)
    requires
        path.len() >= 1,
        put(t, path, value) is Ok,
        value is Nil ==> deeply_well_formed(GuestModel::Table(t)),
    ensures
        value_at(put(t, path, value)->Ok_0, path) == value,
    decreases path.len(),
{
    let key = KeyModel::Name(path[0]);
    if path.len() == 1 {
        lemma_assign_lookup(t, key, value, key);
    } else {
        let child = step_into(lookup(t, key))->Some_0;
        let rest = path.drop_first();
        let c = put(child, rest, value)->Ok_0;
        if value is Nil {
            lemma_find(t, key);
        }
        lemma_put_reads_back(child, rest, value);
        lemma_assign_lookup(t, key, GuestModel::Table(c), key);
    }
}

/// After a value is stored under a path, every segment before the last
/// leads to a container.
pub proof fn lemma_put_prefix(t: Seq<EntryModel>, path: Seq<Seq<char>>, value: GuestModel)
    requires
        path.len() >= 1,
        put(t, path, value) is Ok,
    ensures
        container_at(put(t, path, value)->Ok_0, path.drop_last()) is Some,
    decreases path.len(),
{
    if path.len() > 1 {
        let key = KeyModel::Name(path[0]);
        let child = step_into(lookup(t, key))->Some_0;
        let rest = path.drop_first();
        let c = put(child, rest, value)->Ok_0;
        lemma_put_prefix(child, rest, value);
        lemma_assign_lookup(t, key, GuestModel::Table(c), key);
        assert(path.drop_last().drop_first() == rest.drop_last());
        assert(path.drop_last()[0] == path[0]);
    }
}

/// After a value that is no container is stored under a path, the path
/// reads back as that value's kind: asking for a container at the path or
/// below it fails, naming the last segment and the kind of the value.
pub proof fn lemma_put_blocks(
    t: Seq<EntryModel>,
    path: Seq<Seq<char>>,
    value: GuestModel,
    below: Seq<Seq<char>>,
)
    requires
        path.len() >= 1,
        put(t, path, value) is Ok,
        !(value is Nil),
        !(value is Table),
    ensures
        ensure(put(t, path, value)->Ok_0, path + below) == Err::<Seq<EntryModel>, FailureModel>(
            FailureModel::NamespaceConflict { segment: path.last(), kind: kind_of(value) },
        ),
    decreases path.len(),
{
    let key = KeyModel::Name(path[0]);
    let after = put(t, path, value)->Ok_0;
    let full = path + below;
    assert(full[0] == path[0]);
    if path.len() == 1 {
        lemma_assign_lookup(t, key, value, key);
    } else {
        let child = step_into(lookup(t, key))->Some_0;
        let rest = path.drop_first();
        let c = put(child, rest, value)->Ok_0;
        lemma_put_blocks(child, rest, value, below);
        lemma_assign_lookup(t, key, GuestModel::Table(c), key);
        assert(full.drop_first() == rest + below);
        assert(rest.last() == path.last());
    }
}

/// The dotted name of `child` below `parent`.
pub open spec fn dotted(parent: Seq<char>, child: Seq<char>) -> Seq<char> {
    parent + seq!['.'] + child
}

/// A name without a dot is one segment.
pub proof fn lemma_split_plain(s: Seq<char>, sep: char)
    requires
        forall|i: int| 0 <= i < s.len() ==> s[i] != sep,
    ensures
        split(s, sep) == seq![s],
    decreases s.len(),
{
    if s.len() > 0 {
        lemma_split_plain(s.drop_last(), sep);
        assert(s[s.len() - 1] != sep);
        assert(s.drop_last().push(s.last()) == s);
        let head = seq![s.drop_last()];
        assert(head.drop_last().push(head.last().push(s.last())) == seq![s]);
    } else {
        assert(s == Seq::<char>::empty());
    }
}

/// Asking for the same dotted name a second time succeeds, changes
/// nothing, and leads to the container that the first request led to.
pub proof fn lemma_ensure_container_idempotent(root: Seq<EntryModel>, name: Seq<char>)
    requires
        ensure_container_spec(root, name) is Ok,
    ensures
        ensure_container_spec(ensure_container_spec(root, name)->Ok_0, name)
            == ensure_container_spec(root, name),
        container_at(ensure_container_spec(root, name)->Ok_0, path_of(name)->Some_0) is Some,
{
    let path = path_of(name)->Some_0;
    lemma_ensure_idempotent(root, path);
    lemma_ensure_creates(root, path);
}

/// After a value is stored at `parent.leaf`, asking for the container
/// `parent` succeeds and changes nothing.
pub proof fn lemma_leaf_keeps_parent(
    root: Seq<EntryModel>,
    parent: Seq<char>,
    leaf: Seq<char>,
    value: GuestModel,
)
    requires
        parent.len() > 0,
        forall|i: int| 0 <= i < leaf.len() ==> leaf[i] != '.',
        set_nested_spec(root, dotted(parent, leaf), value) is Ok,
    ensures
        ensure_container_spec(set_nested_spec(root, dotted(parent, leaf), value)->Ok_0, parent)
            == Ok::<Seq<EntryModel>, FailureModel>(
            set_nested_spec(root, dotted(parent, leaf), value)->Ok_0,
        ),
{
    let name = dotted(parent, leaf);
    let path = split(name, '.');
    let above = split(parent, '.');
    lemma_split_concat(parent, leaf, '.');
    lemma_split_plain(leaf, '.');
    lemma_split_nonempty(parent, '.');
    assert(path == above + seq![leaf]);
    assert(path.drop_last() == above);
    assert(path_of(name) == Some(path));
    assert(path_of(parent) == Some(above)) by {
        if exists|i: int| 0 < i < above.len() - 1 && (#[trigger] above[i]).len() == 0 {
            let i = choose|i: int| 0 < i < above.len() - 1 && (#[trigger] above[i]).len() == 0;
            assert(path[i] == above[i]);
        }
    }
    let after = put(root, path, value)->Ok_0;
    lemma_put_prefix(root, path, value);
    lemma_ensure_present(after, above);
}

/// After a value that is no container is stored at a dotted name, asking
/// for a container below that name fails: the last segment of the name is
/// in the way, with the kind of the value.
pub proof fn lemma_leaf_blocks_below(
    root: Seq<EntryModel>,
    name: Seq<char>,
    value: GuestModel,
    child: Seq<char>,
)
    requires
        set_nested_spec(root, name, value) is Ok,
        !(value is Nil),
        !(value is Table),
        path_of(dotted(name, child)) is Some,
    ensures
        ensure_container_spec(set_nested_spec(root, name, value)->Ok_0, dotted(name, child))
            == Err::<Seq<EntryModel>, FailureModel>(
            FailureModel::NamespaceConflict {
                segment: split(name, '.').last(),
                kind: kind_of(value),
            },
        ),
{
    let path = split(name, '.');
    let below = split(child, '.');
    lemma_split_concat(name, child, '.');
    lemma_split_nonempty(name, '.');
    assert(path_of(name) == Some(path));
    lemma_put_blocks(root, path, value, below);
}

/// Whether an outcome without a value is the one a model-level result describes.
pub open spec fn unit_outcome(r: Result<(), Failure>, m: Result<Seq<EntryModel>, FailureModel>) -> bool {
    match r {
        Ok(_) => m is Ok,
        Err(e) => m == Err::<Seq<EntryModel>, FailureModel>(e@),
    }
}

/// The table after an operation that leaves it alone when it fails.
pub open spec fn table_after(before: Seq<EntryModel>, m: Result<Seq<EntryModel>, FailureModel>) -> Seq<
    EntryModel,
> {
    match m {
        Ok(t) => t,
        Err(_) => before,
    }
}

/// The segments of `path` from position `from` on.
pub open spec fn tail(path: Seq<String>, from: int) -> Seq<Seq<char>> {
    views(path).subrange(from, path.len() as int)
}

/// Splits a dotted name into its segments.
pub fn parse_path(name: &str) -> (r: Result<Vec<String>, Failure>)
    ensures
        match r {
            Ok(path) => path_of(name@) == Some(views(path@)),
            Err(e) => path_of(name@) is None && e@ == FailureModel::EmptyModulePath,
        },
{
    if name.is_empty() {
        return Err(Failure::EmptyModulePath);
    }
    let path = split_text(name, '.');
    let mut i: usize = 1;
    while i < path.len() && i + 1 < path.len()
        invariant
            1 <= i,
            views(path@) == split(name@, '.'),
            forall|j: int| 0 < j < i && j < path.len() - 1 ==> (#[trigger] views(path@)[j]).len() != 0,
        decreases path.len() - i,
    {
        if path[i].as_str().is_empty() {
            assert(views(path@)[i as int].len() == 0);
            return Err(Failure::EmptyModulePath);
        }
        assert(views(path@)[i as int].len() != 0);
        i = i + 1;
    }
    Ok(path)
}

fn ensure_from(t: &mut Table, path: &Vec<String>, from: usize) -> (r: Result<(), Failure>)
    requires
        from <= path.len(),
    ensures
        unit_outcome(r, ensure(old(t)@, tail(path@, from as int))),
        final(t)@ == table_after(old(t)@, ensure(old(t)@, tail(path@, from as int))),
    decreases path.len() - from,
{
    if from == path.len() {
        return Ok(());
    }
    let ghost before = t@;
    let ghost segments = tail(path@, from as int);
    let ghost rest = tail(path@, from + 1);
    let ghost key_model = KeyModel::Name(path@[from as int]@);
    assert(segments.drop_first() == rest);
    assert(segments[0] == path@[from as int]@);
    let key = Key::Name(path[from].clone());
    match t.position(&key) {
        None => {
            let mut child = Table::new();
            proof {
                lemma_ensure_fresh(rest);
            }
            let made = ensure_from(&mut child, path, from + 1);
            let ghost child_model = child@;
            t.entries.push(Entry { key, value: GuestValue::Table(child) });
            assert(t@ =~= before.push(
                EntryModel { key: key_model, value: GuestModel::Table(child_model) },
            ));
            made
        },
        Some(i) => {
            assert(before[i as int].value == t.entries@[i as int].value@);
            proof {
                lemma_find(before, key_model);
            }
            match &mut t.entries[i].value {
                GuestValue::Table(child) => {
                    let ghost child_before = child@;
                    let made = ensure_from(child, path, from + 1);
                    proof {
                        let m = ensure(child_before, rest);
                        if m is Ok {
                            assert(t@ =~= before.update(
                                i as int,
                                EntryModel { key: key_model, value: GuestModel::Table(m->Ok_0) },
                            ));
                        } else {
                            assert(t@ =~= before);
                        }
                    }
                    made
                },
                GuestValue::Nil => {
                    let mut child = Table::new();
                    proof {
                        lemma_ensure_fresh(rest);
                    }
                    let made = ensure_from(&mut child, path, from + 1);
                    let ghost child_model = child@;
                    t.entries[i] = Entry { key, value: GuestValue::Table(child) };
                    assert(t@ =~= before.update(
                        i as int,
                        EntryModel { key: key_model, value: GuestModel::Table(child_model) },
                    ));
                    made
                },
                other => {
                    let kind = other.kind();
                    assert(t@ =~= before);
                    Err(Failure::NamespaceConflict { segment: path[from].clone(), kind })
                },
            }
        },
    }
}

/// Makes every segment of the dotted name lead to a container, creating
/// empty containers where segments are free. A root that already has them
/// is left as it is; on failure the root is left as it was.
pub fn ensure_container(root: &mut Table, name: &str) -> (r: Result<(), Failure>)
    ensures
        unit_outcome(r, ensure_container_spec(old(root)@, name@)),
        final(root)@ == table_after(old(root)@, ensure_container_spec(old(root)@, name@)),
{
    match parse_path(name) {
        Ok(path) => {
            assert(tail(path@, 0) == views(path@));
            ensure_from(root, &path, 0)
        },
        Err(e) => Err(e),
    }
}

fn put_from(t: &mut Table, path: &Vec<String>, from: usize, value: GuestValue) -> (r: Result<
    (),
    Failure,
>)
    requires
        from < path.len(),
    ensures
        unit_outcome(r, put(old(t)@, tail(path@, from as int), value@)),
        final(t)@ == table_after(old(t)@, put(old(t)@, tail(path@, from as int), value@)),
    decreases path.len() - from,
{
    let ghost before = t@;
    let ghost segments = tail(path@, from as int);
    let ghost rest = tail(path@, from + 1);
    let ghost key_model = KeyModel::Name(path@[from as int]@);
    let ghost value_model = value@;
    assert(segments.drop_first() == rest);
    assert(segments[0] == path@[from as int]@);
    let key = Key::Name(path[from].clone());
    if from + 1 == path.len() {
        t.set(key, value);
        return Ok(());
    }
    match t.position(&key) {
        None => {
            let mut child = Table::new();
            proof {
                lemma_put_fresh(rest, value_model);
            }
            let made = put_from(&mut child, path, from + 1, value);
            let ghost child_model = child@;
            t.entries.push(Entry { key, value: GuestValue::Table(child) });
            assert(t@ =~= before.push(
                EntryModel { key: key_model, value: GuestModel::Table(child_model) },
            ));
            made
        },
        Some(i) => {
            assert(before[i as int].value == t.entries@[i as int].value@);
            proof {
                lemma_find(before, key_model);
            }
            match &mut t.entries[i].value {
                GuestValue::Table(child) => {
                    let ghost child_before = child@;
                    let made = put_from(child, path, from + 1, value);
                    proof {
                        let m = put(child_before, rest, value_model);
                        if m is Ok {
                            assert(t@ =~= before.update(
                                i as int,
                                EntryModel { key: key_model, value: GuestModel::Table(m->Ok_0) },
                            ));
                        } else {
                            assert(t@ =~= before);
                        }
                    }
                    made
                },
                GuestValue::Nil => {
                    let mut child = Table::new();
                    proof {
                        lemma_put_fresh(rest, value_model);
                    }
                    let made = put_from(&mut child, path, from + 1, value);
                    let ghost child_model = child@;
                    t.entries[i] = Entry { key, value: GuestValue::Table(child) };
                    assert(t@ =~= before.update(
                        i as int,
                        EntryModel { key: key_model, value: GuestModel::Table(child_model) },
                    ));
                    made
                },
                other => {
                    let kind = other.kind();
                    assert(t@ =~= before);
                    Err(Failure::NamespaceConflict { segment: path[from].clone(), kind })
                },
            }
        },
    }
}

/// Stores `value` under the dotted name. The segments before the last are
/// made to lead to containers; the last is given the value whatever it held
/// before. A name of one segment is set on the root directly. On failure
/// the root is left as it was.
pub fn set_nested_field(root: &mut Table, name: &str, value: GuestValue) -> (r: Result<(), Failure>)
    ensures
        unit_outcome(r, set_nested_spec(old(root)@, name@, value@)),
        final(root)@ == table_after(old(root)@, set_nested_spec(old(root)@, name@, value@)),
{
    match parse_path(name) {
        Ok(path) => {
            assert(tail(path@, 0) == views(path@));
            proof {
                crate::text::lemma_split_nonempty(name@, '.');
            }
            put_from(root, &path, 0, value)
        },
        Err(e) => Err(e),
    }
}

/// Makes the one segment `name` lead to a container in `root`, creating an
/// empty one where the segment is free. The name is not split at dots.
pub fn create_table_in(root: &mut Table, name: &str) -> (r: Result<(), Failure>)
    ensures
        unit_outcome(r, ensure(old(root)@, seq![name@])),
        final(root)@ == table_after(old(root)@, ensure(old(root)@, seq![name@])),
{
    let mut path: Vec<String> = Vec::new();
    path.push(name.to_owned());
    assert(tail(path@, 0) == seq![name@]);
    ensure_from(root, &path, 0)
}

fn walk<'a>(t: &'a Table, path: &Vec<String>, from: usize) -> (r: Option<&'a Table>)
    requires
        from <= path.len(),
    ensures
        match r {
            Some(c) => container_at(t@, tail(path@, from as int)) == Some(c@),
            None => container_at(t@, tail(path@, from as int)) is None,
        },
    decreases path.len() - from,
{
    if from == path.len() {
        return Some(t);
    }
    let ghost segments = tail(path@, from as int);
    assert(segments.drop_first() == tail(path@, from + 1));
    assert(segments[0] == path@[from as int]@);
    match t.get_name(path[from].as_str()) {
        Some(GuestValue::Table(child)) => walk(child, path, from + 1),
        _ => None,
    }
}

/// The container the dotted name leads to, if every segment leads to one.
pub fn container<'a>(root: &'a Table, name: &str) -> (r: Option<&'a Table>)
    ensures
        match r {
            Some(c) => path_of(name@) is Some && container_at(root@, path_of(name@)->Some_0) == Some(
                c@,
            ),
            None => path_of(name@) is None || container_at(root@, path_of(name@)->Some_0) is None,
        },
{
    match parse_path(name) {
        Ok(path) => {
            assert(tail(path@, 0) == views(path@));
            walk(root, &path, 0)
        },
        Err(_) => None,
    }
}

fn read<'a>(t: &'a Table, path: &Vec<String>, from: usize) -> (r: Option<&'a GuestValue>)
    requires
        from < path.len(),
    ensures
        match r {
            Some(v) => v@ == value_at(t@, tail(path@, from as int)),
            None => value_at(t@, tail(path@, from as int)) is Nil,
        },
    decreases path.len() - from,
{
    let ghost segments = tail(path@, from as int);
    assert(segments.drop_first() == tail(path@, from + 1));
    assert(segments[0] == path@[from as int]@);
    let held = t.get_name(path[from].as_str());
    if from + 1 == path.len() {
        held
    } else {
        match held {
            Some(GuestValue::Table(child)) => read(child, path, from + 1),
            _ => None,
        }
    }
}

/// What the dotted name leads to, if anything is there.
pub fn get_nested_field<'a>(root: &'a Table, name: &str) -> (r: Option<&'a GuestValue>)
    ensures
        match r {
            Some(v) => path_of(name@) is Some && v@ == value_at(root@, path_of(name@)->Some_0),
            None => path_of(name@) is None || value_at(root@, path_of(name@)->Some_0) is Nil,
        },
{
    match parse_path(name) {
        Ok(path) => {
            assert(tail(path@, 0) == views(path@));
            proof {
                lemma_split_nonempty(name@, '.');
            }
            read(root, &path, 0)
        },
        Err(_) => None,
    }
}

} // verus!
