//! Guard flags: booleans kept in the private state of one session under
//! fixed keys, used to enforce an order between independent operations.
//!
//! The registry is shared with other features, which may keep values of
//! any kind in it; a key that holds something other than a boolean cannot
//! become a flag.

use vstd::prelude::*;
use crate::failure::{Failure, FailureModel};
use crate::text::same_text;
use crate::value::Kind;

verus! {

/// What the registry holds under a key: a flag, or a value of another kind.
#[derive(Clone, Copy, Debug, PartialEq, Eq, Structural)]
pub enum Slot {
    Flag(bool),
    Other(Kind),
}

/// One key of the registry with what it holds.
#[derive(Debug, PartialEq, Eq)]
pub struct Cell {
    pub key: String,
    pub slot: Slot,
}

/// The private registry of one session.
#[derive(Debug, PartialEq, Eq)]
pub struct Registry {
    pub cells: Vec<Cell>,
}

/// The mapping that a list of cells stands for: a later cell for a key
/// takes the place of an earlier one.
pub open spec fn mapping(cells: Seq<Cell>) -> Map<Seq<char>, Slot>
    decreases cells.len(),
{
    if cells.len() == 0 {
        Map::empty()
    } else {
        mapping(cells.drop_last()).insert(cells.last().key@, cells.last().slot)
    }
}

impl View for Registry {
    type V = Map<Seq<char>, Slot>;

    open spec fn view(&self) -> Map<Seq<char>, Slot> {
        mapping(self.cells@)
    }
}

/// The flag under `key`: false where the key is unset; where the key holds
/// a value that is no boolean, true, as any such value counts as true.
pub open spec fn flag_of(registry: Map<Seq<char>, Slot>, key: Seq<char>) -> bool {
    if registry.contains_key(key) {
        match registry[key] {
            Slot::Flag(b) => b,
            Slot::Other(_) => true,
        }
    } else {
        false
    }
}

/// Whether `key` is taken by a value that is no boolean.
pub open spec fn taken(registry: Map<Seq<char>, Slot>, key: Seq<char>) -> bool {
    registry.contains_key(key) && registry[key] is Other
}

/// Where the last cell for `key` stands: it and no later cell carries the key.
pub open spec fn last_at(cells: Seq<Cell>, key: Seq<char>, at: int) -> bool {
    &&& 0 <= at < cells.len()
    &&& cells[at].key@ == key
    &&& forall|j: int| at < j < cells.len() ==> (#[trigger] cells[j]).key@ != key
}

/// A key that no cell carries is not in the mapping.
pub proof fn lemma_absent(cells: Seq<Cell>, key: Seq<char>)
    requires
        forall|j: int| 0 <= j < cells.len() ==> (#[trigger] cells[j]).key@ != key,
    ensures
        !mapping(cells).contains_key(key),
    decreases cells.len(),
{
    if cells.len() > 0 {
        let head = cells.drop_last();
        assert forall|j: int| 0 <= j < head.len() implies (#[trigger] head[j]).key@ != key by {
            assert(cells[j].key@ != key);
        }
        lemma_absent(head, key);
        assert(cells.last().key@ != key);
    }
}

/// The mapping holds for a key what the last cell for it holds.
pub proof fn lemma_present(cells: Seq<Cell>, key: Seq<char>, at: int)
    requires
        last_at(cells, key, at),
    ensures
        mapping(cells).contains_key(key),
        mapping(cells)[key] == cells[at].slot,
    decreases cells.len(),
{
    if at < cells.len() - 1 {
        let head = cells.drop_last();
        assert(cells.last().key@ != key);
        assert forall|j: int| at < j < head.len() implies (#[trigger] head[j]).key@ != key by {
            assert(cells[j].key@ != key);
        }
        lemma_present(head, key, at);
    }
}

/// Replacing what the last cell for a key holds is an insertion into the mapping.
pub proof fn lemma_replace(cells: Seq<Cell>, key: Seq<char>, at: int, cell: Cell)
    requires
        last_at(cells, key, at),
        cell.key@ == key,
    ensures
        mapping(cells.update(at, cell)) == mapping(cells).insert(key, cell.slot),
    decreases cells.len(),
{
    let after = cells.update(at, cell);
    if at == cells.len() - 1 {
        assert(after.drop_last() == cells.drop_last());
        assert(mapping(cells.drop_last()).insert(key, cells.last().slot).insert(key, cell.slot)
            == mapping(cells.drop_last()).insert(key, cell.slot));
    } else {
        let head = cells.drop_last();
        assert(cells.last().key@ != key);
        assert forall|j: int| at < j < head.len() implies (#[trigger] head[j]).key@ != key by {
            assert(cells[j].key@ != key);
        }
        lemma_replace(head, key, at, cell);
        assert(after.drop_last() == head.update(at, cell));
        assert(after.last() == cells.last());
        let other = cells.last().key@;
        assert(mapping(head).insert(key, cell.slot).insert(other, cells.last().slot) == mapping(
            head,
        ).insert(other, cells.last().slot).insert(key, cell.slot));
    }
}

impl Registry {
    /// A registry that holds nothing.
    pub fn new() -> (r: Registry)
        ensures
            r@ == Map::<Seq<char>, Slot>::empty(),
    {
        Registry { cells: Vec::new() }
    }

    fn locate(&self, key: &str) -> (r: Option<usize>)
        ensures
            match r {
                Some(i) => last_at(self.cells@, key@, i as int),
                None => forall|j: int|
                    0 <= j < self.cells@.len() ==> (#[trigger] self.cells@[j]).key@ != key@,
            },
    {
        let mut i: usize = self.cells.len();
        while i > 0
            invariant
                i <= self.cells@.len(),
                forall|j: int| i <= j < self.cells@.len() ==> (#[trigger] self.cells@[j]).key@ != key@,
            decreases i,
        {
            if same_text(self.cells[i - 1].key.as_str(), key) {
                return Some(i - 1);
            }
            i = i - 1;
        }
        None
    }

    /// What the registry holds under `key`, if anything.
    pub fn get(&self, key: &str) -> (r: Option<Slot>)
        ensures
            match r {
                Some(slot) => self@.contains_key(key@) && self@[key@] == slot,
                None => !self@.contains_key(key@),
            },
    {
        match self.locate(key) {
            Some(i) => {
                proof {
                    lemma_present(self.cells@, key@, i as int);
                }
                Some(self.cells[i].slot)
            },
            None => {
                proof {
                    lemma_absent(self.cells@, key@);
                }
                None
            },
        }
    }

    /// Stores `slot` under `key`, whatever the key held before.
    pub fn put(&mut self, key: &str, slot: Slot)
        ensures
            final(self)@ == old(self)@.insert(key@, slot),
    {
        let cell = Cell { key: key.to_owned(), slot };
        match self.locate(key) {
            Some(i) => {
                proof {
                    lemma_replace(self.cells@, key@, i as int, cell);
                }
                self.cells[i] = cell;
            },
            None => {
                self.cells.push(cell);
                assert(self.cells@.drop_last() == old(self).cells@);
            },
        }
    }

    /// The flag under `key`. This never fails: an unset key reads as false.
    pub fn get_registry_flag(&self, key: &str) -> (r: bool)
        ensures
            r == flag_of(self@, key@),
    {
        match self.get(key) {
            Some(Slot::Flag(b)) => b,
            Some(Slot::Other(_)) => true,
            None => false,
        }
    }

    /// Sets the flag under `key`, overwriting an earlier boolean. A key
    /// that holds a value of another kind is refused and left as it is.
    pub fn set_registry_flag(&mut self, key: &str, value: bool) -> (r: Result<(), Failure>)
        ensures
            taken(old(self)@, key@) ==> (r matches Err(e) && e@
                == FailureModel::RegistryTypeConflict { key: key@ }) && final(self)@ == old(self)@,
            !taken(old(self)@, key@) ==> r is Ok && final(self)@ == old(self)@.insert(
                key@,
                Slot::Flag(value),
            ),
    {
        match self.get(key) {
            Some(Slot::Other(_)) => Err(Failure::RegistryTypeConflict { key: key.to_owned() }),
            _ => {
                self.put(key, Slot::Flag(value));
                Ok(())
            },
        }
    }
}

/// A flag that was set reads back as it was set, and the flags under other
/// keys read as before.
pub proof fn lemma_flag_reads_back(
    registry: Map<Seq<char>, Slot>,
    key: Seq<char>,
    value: bool,
    other: Seq<char>,
)
    ensures
        flag_of(registry.insert(key, Slot::Flag(value)), key) == value,
        other != key ==> flag_of(registry.insert(key, Slot::Flag(value)), other) == flag_of(
            registry,
            other,
        ),
{
}

} // verus!
