//! A plain-data model of the values that cross the host/guest boundary.
//!
//! A guest value is nil, a boolean, an integer, a floating-point number
//! (carried as its IEEE-754 bit pattern), a string, a table, or something the
//! host can only name by kind (functions, threads, userdata). A table is a
//! list of entries in insertion order; reading a key yields the first entry
//! that carries it, so a table whose keys are distinct behaves as a mapping.

use vstd::prelude::*;
use crate::text::{same_text, signed_decimal, signed_decimal_text};

verus! {

/// The kind of a guest value, as the guest runtime names it.
#[derive(Clone, Copy, Debug, PartialEq, Eq, Structural)]
pub enum Kind {
    Nil,
    Boolean,
    LightUserData,
    Integer,
    Number,
    String,
    Table,
    Function,
    Thread,
    UserData,
    Error,
}

/// The kinds of value that the host cannot hold as data.
#[derive(Clone, Copy, Debug, PartialEq, Eq, Structural)]
pub enum Handle {
    LightUserData,
    Function,
    Thread,
    UserData,
    Error,
}

/// A table key: a positional index or a name.
#[derive(Debug, PartialEq, Eq)]
pub enum Key {
    Index(i64),
    Name(String),
}

/// One key/value pair of a table.
#[derive(Debug, PartialEq, Eq)]
pub struct Entry {
    pub key: Key,
    pub value: GuestValue,
}

/// A guest table: entries in insertion order.
#[derive(Debug, PartialEq, Eq)]
pub struct Table {
    pub entries: Vec<Entry>,
}

/// A guest value.
#[derive(Debug, PartialEq, Eq)]
pub enum GuestValue {
    Nil,
    Boolean(bool),
    Integer(i64),
    /// A floating-point number, held as its IEEE-754 bit pattern.
    Number(u64),
    Str(String),
    Table(Table),
    /// A value the host cannot hold as data; only its kind is known.
    Opaque(Handle),
}

/// Mathematical view of a [`Key`].
pub enum KeyModel {
    Index(int),
    Name(Seq<char>),
}

/// Mathematical view of an [`Entry`].
pub struct EntryModel {
    pub key: KeyModel,
    pub value: GuestModel,
}

/// Mathematical view of a [`GuestValue`]; a table is the sequence of its entries.
pub enum GuestModel {
    Nil,
    Boolean(bool),
    Integer(i64),
    Number(u64),
    Str(Seq<char>),
    Table(Seq<EntryModel>),
    Opaque(Handle),
}

impl View for Key {
    type V = KeyModel;

    open spec fn view(&self) -> KeyModel {
        match self {
            Key::Index(i) => KeyModel::Index(*i as int),
            Key::Name(s) => KeyModel::Name(s@),
        }
    }
}

impl View for GuestValue {
    type V = GuestModel;

    open spec fn view(&self) -> GuestModel
        decreases self,
    {
        match self {
            GuestValue::Nil => GuestModel::Nil,
            GuestValue::Boolean(b) => GuestModel::Boolean(*b),
            GuestValue::Integer(i) => GuestModel::Integer(*i),
            GuestValue::Number(bits) => GuestModel::Number(*bits),
            GuestValue::Str(s) => GuestModel::Str(s@),
            GuestValue::Table(t) => GuestModel::Table(t@),
            GuestValue::Opaque(k) => GuestModel::Opaque(*k),
        }
    }
}

impl View for Entry {
    type V = EntryModel;

    open spec fn view(&self) -> EntryModel
        decreases self,
    {
        EntryModel { key: self.key@, value: self.value@ }
    }
}

impl View for Table {
    type V = Seq<EntryModel>;

    open spec fn view(&self) -> Seq<EntryModel>
        decreases self,
    {
        Seq::new(
            self.entries@.len(),
            |i: int|
                if 0 <= i < self.entries@.len() {
                    self.entries@[i]@
                } else {
                    EntryModel { key: KeyModel::Index(0), value: GuestModel::Nil }
                },
        )
    }
}

/// The position of the first entry that carries `key`, if there is one.
pub open spec fn find(entries: Seq<EntryModel>, key: KeyModel) -> Option<int>
    decreases entries.len(),
{
    if entries.len() == 0 {
        None
    } else {
        match find(entries.drop_last(), key) {
            Some(i) => Some(i),
            None => if entries.last().key == key {
                Some(entries.len() - 1)
            } else {
                None
            },
        }
    }
}

/// What a table holds under `key`; nil when it holds nothing.
pub open spec fn lookup(entries: Seq<EntryModel>, key: KeyModel) -> GuestModel {
    match find(entries, key) {
        Some(i) => entries[i].value,
        None => GuestModel::Nil,
    }
}

/// The table after `key` is given `value`. Storing nil removes the key; a
/// key that is present keeps its place, a new key goes to the end.
pub open spec fn assign(entries: Seq<EntryModel>, key: KeyModel, value: GuestModel) -> Seq<
    EntryModel,
> {
    match find(entries, key) {
        Some(i) => if value is Nil {
            entries.remove(i)
        } else {
            entries.update(i, EntryModel { key, value })
        },
        None => if value is Nil {
            entries
        } else {
            entries.push(EntryModel { key, value })
        },
    }
}

/// No key occurs twice and no entry holds nil.
pub open spec fn well_formed(entries: Seq<EntryModel>) -> bool {
    &&& forall|i: int, j: int|
        0 <= i < j < entries.len() ==> (#[trigger] entries[i]).key != (#[trigger] entries[j]).key
    &&& forall|i: int| 0 <= i < entries.len() ==> !((#[trigger] entries[i]).value is Nil)
}

/// A value is well formed throughout: every table in it, at any depth, is
/// well formed.
pub open spec fn deeply_well_formed(v: GuestModel) -> bool
    decreases v,
{
    match v {
        GuestModel::Table(t) => well_formed(t) && forall|i: int|
            0 <= i < t.len() ==> deeply_well_formed((#[trigger] t[i]).value),
        _ => true,
    }
}

/// The kind of a value that the host cannot hold as data.
pub open spec fn handle_kind(h: Handle) -> Kind {
    match h {
        Handle::LightUserData => Kind::LightUserData,
        Handle::Function => Kind::Function,
        Handle::Thread => Kind::Thread,
        Handle::UserData => Kind::UserData,
        Handle::Error => Kind::Error,
    }
}

/// The kind of a value.
pub open spec fn kind_of(v: GuestModel) -> Kind {
    match v {
        GuestModel::Nil => Kind::Nil,
        GuestModel::Boolean(_) => Kind::Boolean,
        GuestModel::Integer(_) => Kind::Integer,
        GuestModel::Number(_) => Kind::Number,
        GuestModel::Str(_) => Kind::String,
        GuestModel::Table(_) => Kind::Table,
        GuestModel::Opaque(h) => handle_kind(h),
    }
}

/// The text a value stands for where a string is expected: a string is
/// itself, an integer is its decimal numeral, nothing else is text.
pub open spec fn as_text(v: GuestModel) -> Option<Seq<char>> {
    match v {
        GuestModel::Str(s) => Some(s),
        GuestModel::Integer(i) => Some(signed_decimal(i as int)),
        _ => None,
    }
}

/// `find` returns the first position whose key matches, and `None` exactly
/// when no key matches.
pub proof fn lemma_find(entries: Seq<EntryModel>, key: KeyModel)
    ensures
        match find(entries, key) {
            Some(i) => 0 <= i < entries.len() && entries[i].key == key && forall|j: int|
                0 <= j < i ==> (#[trigger] entries[j]).key != key,
            None => forall|j: int| 0 <= j < entries.len() ==> (#[trigger] entries[j]).key != key,
        },
    decreases entries.len(),
{
    if entries.len() > 0 {
        lemma_find(entries.drop_last(), key);
        let head = entries.drop_last();
        assert(forall|j: int| 0 <= j < head.len() ==> head[j] == entries[j]);
        match find(head, key) {
            Some(i) => {
                assert forall|j: int| 0 <= j < i implies (#[trigger] entries[j]).key != key by {
                    assert(head[j].key != key);
                }
            },
            None => {
                assert forall|j: int| 0 <= j < entries.len() - 1 implies (#[trigger] entries[j]).key
                    != key by {
                    assert(head[j].key != key);
                }
            },
        }
    }
}

/// A position that matches and is preceded by none that does is what `find` returns.
pub proof fn lemma_find_is(entries: Seq<EntryModel>, key: KeyModel, at: int)
    requires
        0 <= at < entries.len(),
        entries[at].key == key,
        forall|j: int| 0 <= j < at ==> (#[trigger] entries[j]).key != key,
    ensures
        find(entries, key) == Some(at),
{
    lemma_find(entries, key);
}

/// Where no key matches, `find` returns `None`.
pub proof fn lemma_find_none(entries: Seq<EntryModel>, key: KeyModel)
    requires
        forall|j: int| 0 <= j < entries.len() ==> (#[trigger] entries[j]).key != key,
    ensures
        find(entries, key) is None,
{
    lemma_find(entries, key);
}

/// Assigning keeps a table well formed.
pub proof fn lemma_assign_well_formed(entries: Seq<EntryModel>, key: KeyModel, value: GuestModel)
    requires
        well_formed(entries),
    ensures
        well_formed(assign(entries, key, value)),
{
    lemma_find(entries, key);
    let after = assign(entries, key, value);
    match find(entries, key) {
        Some(i) => {
            if value is Nil {
                assert forall|a: int, b: int| 0 <= a < b < after.len() implies (
                #[trigger] after[a]).key != (#[trigger] after[b]).key by {
                    let a0 = if a < i { a } else { a + 1 };
                    let b0 = if b < i { b } else { b + 1 };
                    assert(after[a] == entries[a0]);
                    assert(after[b] == entries[b0]);
                }
                assert forall|a: int| 0 <= a < after.len() implies !((#[trigger] after[a]).value
                    is Nil) by {
                    let a0 = if a < i { a } else { a + 1 };
                    assert(after[a] == entries[a0]);
                }
            } else {
                assert forall|a: int, b: int| 0 <= a < b < after.len() implies (
                #[trigger] after[a]).key != (#[trigger] after[b]).key by {
                    assert(after[a].key == entries[a].key);
                    assert(after[b].key == entries[b].key);
                }
                assert forall|a: int| 0 <= a < after.len() implies !((#[trigger] after[a]).value
                    is Nil) by {
                    if a != i {
                        assert(after[a] == entries[a]);
                    }
                }
            }
        },
        None => {
            if !(value is Nil) {
                assert forall|a: int, b: int| 0 <= a < b < after.len() implies (
                #[trigger] after[a]).key != (#[trigger] after[b]).key by {
                    assert(after[a] == entries[a]);
                    if b < entries.len() {
                        assert(after[b] == entries[b]);
                    }
                }
                assert forall|a: int| 0 <= a < after.len() implies !((#[trigger] after[a]).value
                    is Nil) by {
                    if a < entries.len() {
                        assert(after[a] == entries[a]);
                    }
                }
            }
        },
    }
}

/// Assigning a value that is well formed throughout keeps a table well
/// formed throughout.
pub proof fn lemma_assign_deeply_well_formed(
    entries: Seq<EntryModel>,
    key: KeyModel,
    value: GuestModel,
)
    requires
        deeply_well_formed(GuestModel::Table(entries)),
        deeply_well_formed(value),
    ensures
        deeply_well_formed(GuestModel::Table(assign(entries, key, value))),
{
    lemma_assign_well_formed(entries, key, value);
    lemma_find(entries, key);
    let after = assign(entries, key, value);
    assert forall|a: int| 0 <= a < after.len() implies deeply_well_formed(
        (#[trigger] after[a]).value,
    ) by {
        match find(entries, key) {
            Some(i) => {
                if value is Nil {
                    let a0 = if a < i { a } else { a + 1 };
                    assert(after[a] == entries[a0]);
                } else if a != i {
                    assert(after[a] == entries[a]);
                }
            },
            None => {
                if a < entries.len() {
                    assert(after[a] == entries[a]);
                }
            },
        }
    }
}

/// After an assignment the key reads back as the value, and every other key
/// as it did before.
pub proof fn lemma_assign_lookup(
    entries: Seq<EntryModel>,
    key: KeyModel,
    value: GuestModel,
    other: KeyModel,
)
    requires
        value is Nil ==> well_formed(entries),
    ensures
        lookup(assign(entries, key, value), key) == value,
        other != key ==> lookup(assign(entries, key, value), other) == lookup(entries, other),
{
    lemma_find(entries, key);
    lemma_find(entries, other);
    let after = assign(entries, key, value);
    lemma_find(after, key);
    lemma_find(after, other);
    match find(entries, key) {
        Some(i) => {
            if value is Nil {
                assert forall|a: int| 0 <= a < after.len() implies (#[trigger] after[a]).key
                    != key by {
                    let a0 = if a < i { a } else { a + 1 };
                    assert(after[a] == entries[a0]);
                    assert(entries[a0].key != entries[i].key);
                }
                lemma_find_none(after, key);
                if other != key {
                    match find(entries, other) {
                        Some(o) => {
                            let o1 = if o < i { o } else { o - 1 };
                            assert(after[o1] == entries[o]);
                            assert forall|j: int| 0 <= j < o1 implies (#[trigger] after[j]).key
                                != other by {
                                let j0 = if j < i { j } else { j + 1 };
                                assert(after[j] == entries[j0]);
                                assert(entries[j0].key != other);
                            }
                            lemma_find_is(after, other, o1);
                        },
                        None => {
                            assert forall|j: int| 0 <= j < after.len() implies (
                            #[trigger] after[j]).key != other by {
                                let j0 = if j < i { j } else { j + 1 };
                                assert(after[j] == entries[j0]);
                                assert(entries[j0].key != other);
                            }
                            lemma_find_none(after, other);
                        },
                    }
                }
            } else {
                assert forall|j: int| 0 <= j < i implies (#[trigger] after[j]).key != key by {
                    assert(after[j] == entries[j]);
                    assert(entries[j].key != key);
                }
                lemma_find_is(after, key, i);
                if other != key {
                    match find(entries, other) {
                        Some(o) => {
                            assert(o != i);
                            assert forall|j: int| 0 <= j < o implies (#[trigger] after[j]).key
                                != other by {
                                if j != i {
                                    assert(after[j] == entries[j]);
                                    assert(entries[j].key != other);
                                }
                            }
                            lemma_find_is(after, other, o);
                        },
                        None => {
                            assert forall|j: int| 0 <= j < after.len() implies (
                            #[trigger] after[j]).key != other by {
                                if j != i {
                                    assert(after[j] == entries[j]);
                                    assert(entries[j].key != other);
                                }
                            }
                            lemma_find_none(after, other);
                        },
                    }
                }
            }
        },
        None => {
            if value is Nil {
            } else {
                let n = entries.len() as int;
                assert forall|j: int| 0 <= j < n implies (#[trigger] after[j]).key != key by {
                    assert(after[j] == entries[j]);
                    assert(entries[j].key != key);
                }
                lemma_find_is(after, key, n);
                if other != key {
                    match find(entries, other) {
                        Some(o) => {
                            assert forall|j: int| 0 <= j < o implies (#[trigger] after[j]).key
                                != other by {
                                assert(after[j] == entries[j]);
                                assert(entries[j].key != other);
                            }
                            assert(after[o] == entries[o]);
                            lemma_find_is(after, other, o);
                        },
                        None => {
                            assert forall|j: int| 0 <= j < after.len() implies (
                            #[trigger] after[j]).key != other by {
                                if j < n {
                                    assert(after[j] == entries[j]);
                                    assert(entries[j].key != other);
                                }
                            }
                            lemma_find_none(after, other);
                        },
                    }
                }
            }
        },
    }
}

impl Key {
    /// Whether two keys are the same key.
    pub fn same(&self, other: &Key) -> (r: bool)
        ensures
            r == (self@ == other@),
    {
        match self {
            Key::Index(a) => match other {
                Key::Index(b) => *a == *b,
                Key::Name(_) => false,
            },
            Key::Name(a) => match other {
                Key::Index(_) => false,
                Key::Name(b) => same_text(a.as_str(), b.as_str()),
            },
        }
    }
}

impl Handle {
    /// The kind of such a value.
    pub fn kind(&self) -> (k: Kind)
        ensures
            k == handle_kind(*self),
    {
        match self {
            Handle::LightUserData => Kind::LightUserData,
            Handle::Function => Kind::Function,
            Handle::Thread => Kind::Thread,
            Handle::UserData => Kind::UserData,
            Handle::Error => Kind::Error,
        }
    }
}

impl GuestValue {
    /// The kind of the value.
    pub fn kind(&self) -> (k: Kind)
        ensures
            k == kind_of(self@),
    {
        match self {
            GuestValue::Nil => Kind::Nil,
            GuestValue::Boolean(_) => Kind::Boolean,
            GuestValue::Integer(_) => Kind::Integer,
            GuestValue::Number(_) => Kind::Number,
            GuestValue::Str(_) => Kind::String,
            GuestValue::Table(_) => Kind::Table,
            GuestValue::Opaque(h) => h.kind(),
        }
    }

    /// Whether the value is nil.
    pub fn is_nil(&self) -> (r: bool)
        ensures
            r == (self@ is Nil),
    {
        match self {
            GuestValue::Nil => true,
            _ => false,
        }
    }

    /// The text the value stands for where a string is expected.
    pub fn text(&self) -> (r: Option<String>)
        ensures
            match r {
                Some(s) => as_text(self@) == Some(s@),
                None => as_text(self@) is None,
            },
    {
        match self {
            GuestValue::Str(s) => Some(s.clone()),
            GuestValue::Integer(i) => Some(signed_decimal_text(*i)),
            _ => None,
        }
    }

    /// A string value holding `s`.
    pub fn string(s: &str) -> (v: GuestValue)
        ensures
            v@ == GuestModel::Str(s@),
    {
        GuestValue::Str(s.to_owned())
    }
}

impl Table {
    /// A table without entries.
    pub fn new() -> (t: Table)
        ensures
            t@ == Seq::<EntryModel>::empty(),
    {
        let t = Table { entries: Vec::new() };
        assert(t@ =~= Seq::<EntryModel>::empty());
        t
    }

    /// A table without entries, with room for `capacity` of them.
    pub fn with_capacity(capacity: usize) -> (t: Table)
        ensures
            t@ == Seq::<EntryModel>::empty(),
    {
        let t = Table { entries: Vec::with_capacity(capacity) };
        assert(t@ =~= Seq::<EntryModel>::empty());
        t
    }

    /// The number of entries.
    pub fn len(&self) -> (n: usize)
        ensures
            n == self@.len(),
    {
        self.entries.len()
    }

    /// The position of the first entry that carries `key`.
    pub fn position(&self, key: &Key) -> (r: Option<usize>)
        ensures
            match r {
                Some(i) => find(self@, key@) == Some(i as int) && i < self.entries@.len(),
                None => find(self@, key@) is None,
            },
    {
        let mut i: usize = 0;
        while i < self.entries.len()
            invariant
                i <= self.entries@.len(),
                self@.len() == self.entries@.len(),
                forall|j: int| 0 <= j < i ==> (#[trigger] self@[j]).key != key@,
            decreases self.entries.len() - i,
        {
            if self.entries[i].key.same(key) {
                proof {
                    assert(self@[i as int].key == key@);
                    lemma_find_is(self@, key@, i as int);
                }
                return Some(i);
            }
            assert(self@[i as int].key != key@);
            i = i + 1;
        }
        proof {
            lemma_find_none(self@, key@);
        }
        None
    }

    /// What the table holds under `key`, if anything.
    pub fn get(&self, key: &Key) -> (r: Option<&GuestValue>)
        ensures
            match r {
                Some(v) => find(self@, key@) is Some && v@ == lookup(self@, key@),
                None => find(self@, key@) is None,
            },
    {
        match self.position(key) {
            Some(i) => {
                assert(self@[i as int].value == self.entries@[i as int].value@);
                Some(&self.entries[i].value)
            },
            None => None,
        }
    }

    /// What the table holds under the name `name`, if anything.
    pub fn get_name(&self, name: &str) -> (r: Option<&GuestValue>)
        ensures
            match r {
                Some(v) => find(self@, KeyModel::Name(name@)) is Some && v@ == lookup(
                    self@,
                    KeyModel::Name(name@),
                ),
                None => find(self@, KeyModel::Name(name@)) is None,
            },
    {
        let key = Key::Name(name.to_owned());
        self.get(&key)
    }

    /// What the table holds at the position `index`, if anything.
    pub fn get_index(&self, index: i64) -> (r: Option<&GuestValue>)
        ensures
            match r {
                Some(v) => find(self@, KeyModel::Index(index as int)) is Some && v@ == lookup(
                    self@,
                    KeyModel::Index(index as int),
                ),
                None => find(self@, KeyModel::Index(index as int)) is None,
            },
    {
        let key = Key::Index(index);
        self.get(&key)
    }

    /// Gives `key` the value `value`. Storing nil removes the key.
    pub fn set(&mut self, key: Key, value: GuestValue)
        ensures
            final(self)@ == assign(old(self)@, key@, value@),
    {
        let ghost before = self@;
        let ghost entry = EntryModel { key: key@, value: value@ };
        match self.position(&key) {
            Some(i) => {
                if value.is_nil() {
                    self.entries.remove(i);
                    assert(self@ =~= before.remove(i as int));
                } else {
                    self.entries[i] = Entry { key, value };
                    assert(self@ =~= before.update(i as int, entry));
                }
            },
            None => {
                if !value.is_nil() {
                    self.entries.push(Entry { key, value });
                    assert(self@ =~= before.push(entry));
                }
            },
        }
    }

    /// Gives the name `name` the value `value`. Storing nil removes the name.
    pub fn set_name(&mut self, name: &str, value: GuestValue)
        ensures
            final(self)@ == assign(old(self)@, KeyModel::Name(name@), value@),
    {
        self.set(Key::Name(name.to_owned()), value)
    }
}

} // verus!
