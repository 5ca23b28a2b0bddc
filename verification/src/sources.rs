//! The source collection of a session, and the operations that replace and
//! list it.
//!
//! The collection keeps sources in the order in which they were given,
//! each under a name that is not empty and that no other source has. It is
//! replaced wholesale or not at all, and not at all once a layer exists.

use vstd::prelude::*;
use crate::bridge::{decode, encode, lemma_decode_valid};
use crate::failure::{Failure, FailureModel, Policy};
use crate::registry::{flag_of, taken, Registry, Slot};
use crate::source::{name_of, valid, Source, SourceModel};
use crate::text::same_text;
use crate::value::{
    as_text, assign, lookup, EntryModel, GuestModel, GuestValue, KeyModel, Table,
};

verus! {

/// A source under its name.
#[derive(Debug, PartialEq, Eq)]
pub struct Named {
    pub name: String,
    pub source: Source,
}

/// Mathematical view of a [`Named`].
pub struct NamedModel {
    pub name: Seq<char>,
    pub source: SourceModel,
}

impl View for Named {
    type V = NamedModel;

    open spec fn view(&self) -> NamedModel {
        NamedModel { name: self.name@, source: self.source@ }
    }
}

/// The sources of a session, in the order in which they were given.
#[derive(Debug, PartialEq, Eq)]
pub struct SourceCollection {
    pub entries: Vec<Named>,
}

impl View for SourceCollection {
    type V = Seq<NamedModel>;

    open spec fn view(&self) -> Seq<NamedModel> {
        self.entries@.map_values(|n: Named| n@)
    }
}

/// The state of one session that the source operations work on.
#[derive(Debug, PartialEq, Eq)]
pub struct Session {
    pub registry: Registry,
    pub sources: SourceCollection,
}

/// The key of the flag that is set once a layer has been created.
pub open spec fn layer_created() -> Seq<char> {
    "dfim-flag-layer-created"@
}

/// The key of the flag that is set once the sources have been given.
pub open spec fn sources_set() -> Seq<char> {
    "dfim-flag-source-registered"@
}

/// Whether a collection has a source under `name`.
pub open spec fn has_name(list: Seq<NamedModel>, name: Seq<char>) -> bool {
    exists|i: int| 0 <= i < list.len() && (#[trigger] list[i]).name == name
}

/// No name is empty and no name occurs twice.
pub open spec fn well_named(list: Seq<NamedModel>) -> bool {
    &&& forall|i: int| 0 <= i < list.len() ==> (#[trigger] list[i]).name.len() > 0
    &&& forall|i: int, j: int|
        0 <= i < j < list.len() ==> (#[trigger] list[i]).name != (#[trigger] list[j]).name
}

/// The name a source is registered under: the `name` entry of the table it
/// was given as, where there is one that is text, else its own short label.
pub open spec fn entry_name(given: GuestModel, source: SourceModel) -> Seq<char> {
    match given {
        GuestModel::Table(t) => match as_text(lookup(t, KeyModel::Name("name"@))) {
            Some(n) => n,
            None => name_of(source),
        },
        _ => name_of(source),
    }
}

/// The collection that the first `n` of the given values make, or the
/// first failure: a value that is no source, an empty name, or a name that
/// an earlier value already has.
pub open spec fn collect(given: Seq<GuestModel>, n: nat) -> Result<Seq<NamedModel>, FailureModel>
    decreases n,
{
    if n == 0 || n > given.len() {
        Ok(Seq::empty())
    } else {
        match collect(given, (n - 1) as nat) {
            Err(e) => Err(e),
            Ok(list) => match decode(given[n - 1]) {
                Err(e) => Err(e),
                Ok(source) => {
                    let name = entry_name(given[n - 1], source);
                    if name.len() == 0 {
                        Err(FailureModel::EmptySourceName)
                    } else if has_name(list, name) {
                        Err(FailureModel::DuplicateSourceName { name })
                    } else {
                        Ok(list.push(NamedModel { name, source }))
                    }
                },
            },
        }
    }
}

/// The views of the given values.
pub open spec fn given_views(given: Seq<GuestValue>) -> Seq<GuestModel> {
    given.map_values(|v: GuestValue| v@)
}

/// What replacing the collection does, by the registry and collection
/// before and the values given: the outcome, the collection after and the
/// registry after. `Ok(true)` says that the sources had been given before.
pub open spec fn replaced(
    registry: Map<Seq<char>, Slot>,
    sources: Seq<NamedModel>,
    given: Seq<GuestModel>,
) -> (Result<bool, FailureModel>, Seq<NamedModel>, Map<Seq<char>, Slot>) {
    if flag_of(registry, layer_created()) {
        (Err(FailureModel::PolicyViolation(Policy::SourcesFrozen)), sources, registry)
    } else {
        match collect(given, given.len()) {
            Err(e) => (Err(e), sources, registry),
            Ok(list) => if taken(registry, sources_set()) {
                (Err(FailureModel::RegistryTypeConflict { key: sources_set() }), list, registry)
            } else {
                (
                    Ok(flag_of(registry, sources_set())),
                    list,
                    registry.insert(sources_set(), Slot::Flag(true)),
                )
            },
        }
    }
}

/// The table that lists the first `n` sources: each under its name, in its
/// guest representation.
pub open spec fn listing(list: Seq<NamedModel>, n: nat) -> Seq<EntryModel>
    decreases n,
{
    if n == 0 || n > list.len() {
        Seq::empty()
    } else {
        assign(listing(list, (n - 1) as nat), KeyModel::Name(list[n - 1].name), encode(
            list[n - 1].source,
        ))
    }
}

/// A failure among the first `n` values is the failure of any longer run.
pub proof fn lemma_collect_fails(given: Seq<GuestModel>, n: nat, upto: nat)
    requires
        n <= upto <= given.len(),
        collect(given, n) is Err,
    ensures
        collect(given, upto) == collect(given, n),
    decreases upto - n,
{
    if n < upto {
        lemma_collect_fails(given, n, (upto - 1) as nat);
    }
}

/// A collection that was accepted has one source for each value given, no
/// empty name and no name twice.
pub proof fn lemma_collect_well_named(given: Seq<GuestModel>, n: nat)
    requires
        collect(given, n) is Ok,
    ensures
        well_named(collect(given, n)->Ok_0),
        n <= given.len() ==> collect(given, n)->Ok_0.len() == n,
    decreases n,
{
    if n == 0 || n > given.len() {
    } else {
        lemma_collect_well_named(given, (n - 1) as nat);
        let list = collect(given, (n - 1) as nat)->Ok_0;
        let after = collect(given, n)->Ok_0;
        let added = after.last();
        assert forall|i: int, j: int| 0 <= i < j < after.len() implies (#[trigger] after[i]).name
            != (#[trigger] after[j]).name by {
            if j < list.len() {
                assert(after[i] == list[i]);
                assert(after[j] == list[j]);
            } else {
                assert(after[i] == list[i]);
                assert(!has_name(list, added.name));
            }
        }
        assert forall|i: int| 0 <= i < after.len() implies (#[trigger] after[i]).name.len()
            > 0 by {
            if i < list.len() {
                assert(after[i] == list[i]);
            }
        }
    }
}

/// Every source of a collection that was accepted is a valid source.
pub proof fn lemma_collect_valid(given: Seq<GuestModel>, n: nat, i: int)
    requires
        collect(given, n) is Ok,
        0 <= i < collect(given, n)->Ok_0.len(),
    ensures
        valid(collect(given, n)->Ok_0[i].source),
    decreases n,
{
    if n == 0 || n > given.len() {
    } else {
        let list = collect(given, (n - 1) as nat)->Ok_0;
        if i < list.len() {
            lemma_collect_valid(given, (n - 1) as nat, i);
        } else {
            lemma_decode_valid(given[n - 1]);
        }
    }
}

/// Once a layer has been created the collection cannot be replaced,
/// whatever is given, even what the collection already holds: the call
/// fails and leaves the collection and the registry as they were.
pub proof fn lemma_frozen(
    registry: Map<Seq<char>, Slot>,
    sources: Seq<NamedModel>,
    given: Seq<GuestModel>,
)
    requires
        flag_of(registry, layer_created()),
    ensures
        replaced(registry, sources, given) == (
            Err::<bool, FailureModel>(FailureModel::PolicyViolation(Policy::SourcesFrozen)),
            sources,
            registry,
        ),
{
}

/// Two values that would be registered under one name are refused: where
/// the value at `j` is a source whose name an earlier value at `i` already
/// took, the whole replacement fails.
pub proof fn lemma_duplicate_refused(given: Seq<GuestModel>, i: int, j: int)
    requires
        0 <= i < j < given.len(),
        decode(given[i]) is Ok,
        decode(given[j]) is Ok,
        entry_name(given[i], decode(given[i])->Ok_0) == entry_name(given[j], decode(given[j])->Ok_0),
    ensures
        collect(given, given.len()) is Err,
{
    if collect(given, (j + 1) as nat) is Ok {
        let list = collect(given, j as nat)->Ok_0;
        lemma_collect_holds(given, j as nat, i);
        assert(has_name(list, entry_name(given[j], decode(given[j])->Ok_0)));
    }
    lemma_collect_fails(given, (j + 1) as nat, given.len());
}

/// A value that would be registered under the empty name is refused:
/// where the value at `i` is a source whose name is empty, the whole
/// replacement fails.
pub proof fn lemma_empty_name_refused(given: Seq<GuestModel>, i: int)
    requires
        0 <= i < given.len(),
        decode(given[i]) is Ok,
        entry_name(given[i], decode(given[i])->Ok_0).len() == 0,
    ensures
        collect(given, given.len()) is Err,
{
    assert(collect(given, (i + 1) as nat) is Err);
    lemma_collect_fails(given, (i + 1) as nat, given.len());
}

/// What was accepted holds each value's source under that value's name.
pub proof fn lemma_collect_holds(given: Seq<GuestModel>, n: nat, i: int)
    requires
        0 <= i < n <= given.len(),
        collect(given, n) is Ok,
    ensures
        collect(given, n)->Ok_0.len() == n,
        decode(given[i]) is Ok,
        collect(given, n)->Ok_0[i] == (NamedModel {
            name: entry_name(given[i], decode(given[i])->Ok_0),
            source: decode(given[i])->Ok_0,
        }),
    decreases n,
{
    lemma_collect_well_named(given, n);
    if i < n - 1 {
        lemma_collect_holds(given, (n - 1) as nat, i);
    } else {
        lemma_collect_well_named(given, (n - 1) as nat);
    }
}

impl SourceCollection {
    /// A collection without sources.
    pub fn new() -> (c: SourceCollection)
        ensures
            c@ == Seq::<NamedModel>::empty(),
    {
        let c = SourceCollection { entries: Vec::new() };
        assert(c@ =~= Seq::<NamedModel>::empty());
        c
    }

    /// The number of sources.
    pub fn len(&self) -> (n: usize)
        ensures
            n == self@.len(),
    {
        self.entries.len()
    }

    /// Whether a source is registered under `name`.
    pub fn contains(&self, name: &str) -> (r: bool)
        ensures
            r == has_name(self@, name@),
    {
        let mut i: usize = 0;
        while i < self.entries.len()
            invariant
                i <= self.entries@.len(),
                self@.len() == self.entries@.len(),
                forall|j: int| 0 <= j < i ==> (#[trigger] self@[j]).name != name@,
            decreases self.entries.len() - i,
        {
            if same_text(self.entries[i].name.as_str(), name) {
                assert(self@[i as int].name == name@);
                return true;
            }
            assert(self@[i as int].name != name@);
            i = i + 1;
        }
        false
    }

    /// The source registered under `name`, if there is one.
    pub fn get(&self, name: &str) -> (r: Option<&Source>)
        ensures
            match r {
                Some(s) => exists|i: int|
                    0 <= i < self@.len() && (#[trigger] self@[i]).name == name@ && self@[i].source
                        == s@,
                None => !has_name(self@, name@),
            },
    {
        let mut i: usize = 0;
        while i < self.entries.len()
            invariant
                i <= self.entries@.len(),
                self@.len() == self.entries@.len(),
                forall|j: int| 0 <= j < i ==> (#[trigger] self@[j]).name != name@,
            decreases self.entries.len() - i,
        {
            if same_text(self.entries[i].name.as_str(), name) {
                assert(self@[i as int].name == name@);
                assert(self@[i as int].source == self.entries@[i as int].source@);
                return Some(&self.entries[i].source);
            }
            assert(self@[i as int].name != name@);
            i = i + 1;
        }
        None
    }
}

fn name_for(given: &GuestValue, source: &Source) -> (out: String)
    ensures
        out@ == entry_name(given@, source@),
{
    if let GuestValue::Table(t) = given {
        if let Some(v) = t.get_name("name") {
            if let Some(n) = v.text() {
                return n;
            }
        }
    }
    source.name()
}

fn gather(given: &Vec<GuestValue>) -> (r: Result<SourceCollection, Failure>)
    ensures
        match r {
            Ok(c) => collect(given_views(given@), given@.len()) == Ok::<
                Seq<NamedModel>,
                FailureModel,
            >(c@),
            Err(e) => collect(given_views(given@), given@.len()) == Err::<
                Seq<NamedModel>,
                FailureModel,
            >(e@),
        },
{
    let ghost models = given_views(given@);
    let mut list = SourceCollection::new();
    let mut i: usize = 0;
    while i < given.len()
        invariant
            i <= given@.len(),
            models == given_views(given@),
            collect(models, i as nat) == Ok::<Seq<NamedModel>, FailureModel>(list@),
        decreases given.len() - i,
    {
        assert(models[i as int] == given@[i as int]@);
        let source = match Source::from_lua(&given[i]) {
            Ok(s) => s,
            Err(e) => {
                proof {
                    lemma_collect_fails(models, (i + 1) as nat, models.len());
                }
                return Err(e);
            },
        };
        let name = name_for(&given[i], &source);
        if name.as_str().is_empty() {
            proof {
                lemma_collect_fails(models, (i + 1) as nat, models.len());
            }
            return Err(Failure::EmptySourceName);
        }
        if list.contains(name.as_str()) {
            proof {
                lemma_collect_fails(models, (i + 1) as nat, models.len());
            }
            return Err(Failure::DuplicateSourceName { name });
        }
        let ghost before = list@;
        let ghost added = NamedModel { name: name@, source: source@ };
        list.entries.push(Named { name, source });
        assert(list@ =~= before.push(added));
        i = i + 1;
    }
    Ok(list)
}

impl Session {
    /// A session with an empty registry and no sources.
    pub fn new() -> (s: Session)
        ensures
            s.registry@ == Map::<Seq<char>, Slot>::empty(),
            s.sources@ == Seq::<NamedModel>::empty(),
    {
        Session { registry: Registry::new(), sources: SourceCollection::new() }
    }

    /// Replaces the source collection with the sources that the given
    /// values describe. Nothing is replaced once a layer exists, nor where a
    /// value is no source or a name is empty or taken. Doing this a second
    /// time is allowed; `Ok(true)` reports it, for the caller to warn about.
    pub fn set_sources(&mut self, given: &Vec<GuestValue>) -> (r: Result<bool, Failure>)
        ensures
            match r {
                Ok(again) => replaced(
                    old(self).registry@,
                    old(self).sources@,
                    given_views(given@),
                ).0 == Ok::<bool, FailureModel>(again),
                Err(e) => replaced(
                    old(self).registry@,
                    old(self).sources@,
                    given_views(given@),
                ).0 == Err::<bool, FailureModel>(e@),
            },
            final(self).sources@ == replaced(
                old(self).registry@,
                old(self).sources@,
                given_views(given@),
            ).1,
            final(self).registry@ == replaced(
                old(self).registry@,
                old(self).sources@,
                given_views(given@),
            ).2,
    {
        if self.registry.get_registry_flag("dfim-flag-layer-created") {
            return Err(Failure::PolicyViolation(Policy::SourcesFrozen));
        }
        let again = self.registry.get_registry_flag("dfim-flag-source-registered");
        let list = match gather(given) {
            Ok(list) => list,
            Err(e) => {
                return Err(e);
            },
        };
        self.sources = list;
        match self.registry.set_registry_flag("dfim-flag-source-registered", true) {
            Ok(_) => Ok(again),
            Err(e) => Err(e),
        }
    }

    /// The sources as a guest table: each under its name, in its guest
    /// representation.
    pub fn get_sources(&self) -> (t: Table)
        ensures
            t@ == listing(self.sources@, self.sources@.len()),
    {
        let mut table = Table::new();
        let mut i: usize = 0;
        while i < self.sources.entries.len()
            invariant
                i <= self.sources.entries@.len(),
                self.sources@.len() == self.sources.entries@.len(),
                table@ == listing(self.sources@, i as nat),
            decreases self.sources.entries.len() - i,
        {
            let item = &self.sources.entries[i];
            assert(self.sources@[i as int] == item@);
            let value = item.source.duplicate().into_lua();
            table.set_name(item.name.as_str(), value);
            i = i + 1;
        }
        table
    }
}

} // verus!
