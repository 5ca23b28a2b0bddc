//! The interchange bridge: a generic tree of null, booleans, numbers,
//! strings, arrays and objects, turned into a guest value.
//!
//! An array becomes a table keyed by position, counted from one; an object
//! becomes a table keyed by member name. A null member stores nothing, as
//! storing nil in a table stores nothing.

use vstd::prelude::*;
use crate::failure::{Failure, FailureModel};
use crate::value::{assign, EntryModel, GuestModel, GuestValue, Key, KeyModel, Table};

verus! {

/// A number of the interchange format, by what it can be read as: a 64-bit
/// signed integer where it is one, and the bit pattern of a double where it
/// has one.
#[derive(Clone, Copy, Debug, PartialEq, Eq)]
pub struct JsonNumber {
    pub integer: Option<i64>,
    pub float_bits: Option<u64>,
}

/// One member of an object.
#[derive(Debug, PartialEq, Eq)]
pub struct Member {
    pub name: String,
    pub value: JsonValue,
}

/// A document of the interchange format.
#[derive(Debug, PartialEq, Eq)]
pub enum JsonValue {
    Null,
    Bool(bool),
    Number(JsonNumber),
    Str(String),
    Array(Vec<JsonValue>),
    Object(Vec<Member>),
}

/// Mathematical view of a [`Member`].
pub struct MemberModel {
    pub name: Seq<char>,
    pub value: JsonModel,
}

/// Mathematical view of a [`JsonValue`].
pub enum JsonModel {
    Null,
    Bool(bool),
    Number(JsonNumber),
    Str(Seq<char>),
    Array(Seq<JsonModel>),
    Object(Seq<MemberModel>),
}

impl View for JsonValue {
    type V = JsonModel;

    open spec fn view(&self) -> JsonModel
        decreases self,
    {
        match self {
            JsonValue::Null => JsonModel::Null,
            JsonValue::Bool(b) => JsonModel::Bool(*b),
            JsonValue::Number(n) => JsonModel::Number(*n),
            JsonValue::Str(s) => JsonModel::Str(s@),
            JsonValue::Array(a) => JsonModel::Array(
                Seq::new(
                    a@.len(),
                    |i: int|
                        if 0 <= i < a@.len() {
                            a@[i]@
                        } else {
                            JsonModel::Null
                        },
                ),
            ),
            JsonValue::Object(m) => JsonModel::Object(
                Seq::new(
                    m@.len(),
                    |i: int|
                        if 0 <= i < m@.len() {
                            m@[i]@
                        } else {
                            MemberModel { name: Seq::empty(), value: JsonModel::Null }
                        },
                ),
            ),
        }
    }
}

impl View for Member {
    type V = MemberModel;

    open spec fn view(&self) -> MemberModel
        decreases self,
    {
        MemberModel { name: self.name@, value: self.value@ }
    }
}

/// The guest value for a number: an integer where the number is one that
/// fits 64 signed bits, else a double where it has one, else a failure.
pub open spec fn number_to_guest(n: JsonNumber) -> Result<GuestModel, FailureModel> {
    match n.integer {
        Some(i) => Ok(GuestModel::Integer(i)),
        None => match n.float_bits {
            Some(bits) => Ok(GuestModel::Number(bits)),
            None => Err(FailureModel::NumberOutOfRange),
        },
    }
}

/// The guest value for a document, or the first failure met in document order.
pub open spec fn to_guest(j: JsonModel) -> Result<GuestModel, FailureModel>
    decreases j, 0nat,
{
    match j {
        JsonModel::Null => Ok(GuestModel::Nil),
        JsonModel::Bool(b) => Ok(GuestModel::Boolean(b)),
        JsonModel::Number(n) => number_to_guest(n),
        JsonModel::Str(s) => Ok(GuestModel::Str(s)),
        JsonModel::Array(a) => match array_entries(a, a.len()) {
            Ok(t) => Ok(GuestModel::Table(t)),
            Err(e) => Err(e),
        },
        JsonModel::Object(m) => match object_entries(m, m.len()) {
            Ok(t) => Ok(GuestModel::Table(t)),
            Err(e) => Err(e),
        },
    }
}

/// The table entries for the first `n` items of an array: item `i`, counted
/// from zero, is stored at position `i + 1`. A position beyond the largest
/// guest integer cannot be stored at and is a failure.
pub open spec fn array_entries(a: Seq<JsonModel>, n: nat) -> Result<Seq<EntryModel>, FailureModel>
    decreases a, n,
{
    if n == 0 || n > a.len() {
        Ok(Seq::empty())
    } else {
        match array_entries(a, (n - 1) as nat) {
            Err(e) => Err(e),
            Ok(t) => if n > i64::MAX {
                Err(FailureModel::NumberOutOfRange)
            } else {
                match to_guest(a[n - 1]) {
                    Err(e) => Err(e),
                    Ok(v) => Ok(assign(t, KeyModel::Index(n as int), v)),
                }
            },
        }
    }
}

/// The table entries for the first `n` members of an object: each member is
/// stored under its name, a later member of the same name taking the place
/// of an earlier one.
pub open spec fn object_entries(m: Seq<MemberModel>, n: nat) -> Result<Seq<EntryModel>, FailureModel>
    decreases m, n,
{
    if n == 0 || n > m.len() {
        Ok(Seq::empty())
    } else {
        match object_entries(m, (n - 1) as nat) {
            Err(e) => Err(e),
            Ok(t) => match to_guest(m[n - 1].value) {
                Err(e) => Err(e),
                Ok(v) => Ok(assign(t, KeyModel::Name(m[n - 1].name), v)),
            },
        }
    }
}

/// Whether an outcome is the one a model-level result describes.
pub open spec fn guest_outcome(r: Result<GuestValue, Failure>, m: Result<GuestModel, FailureModel>) -> bool {
    match r {
        Ok(v) => m == Ok::<GuestModel, FailureModel>(v@),
        Err(e) => m == Err::<GuestModel, FailureModel>(e@),
    }
}

/// Turns a number into a guest value.
pub fn number_value(n: &JsonNumber) -> (r: Result<GuestValue, Failure>)
    ensures
        guest_outcome(r, number_to_guest(*n)),
{
    match n.integer {
        Some(i) => Ok(GuestValue::Integer(i)),
        None => match n.float_bits {
            Some(bits) => Ok(GuestValue::Number(bits)),
            None => Err(Failure::NumberOutOfRange),
        },
    }
}

fn lower(value: &JsonValue) -> (r: Result<GuestValue, Failure>)
    ensures
        guest_outcome(r, to_guest(value@)),
    decreases value,
{
    match value {
        JsonValue::Null => Ok(GuestValue::Nil),
        JsonValue::Bool(b) => Ok(GuestValue::Boolean(*b)),
        JsonValue::Number(n) => number_value(n),
        JsonValue::Str(s) => Ok(GuestValue::Str(s.clone())),
        JsonValue::Array(items) => {
            let ghost a = Seq::new(
                items@.len(),
                |k: int|
                    if 0 <= k < items@.len() {
                        items@[k]@
                    } else {
                        JsonModel::Null
                    },
            );
            assert(value@->Array_0 =~= a) by {
                reveal_with_fuel(<JsonValue as View>::view, 2);
            }
            let mut table = Table::with_capacity(items.len());
            let mut i: usize = 0;
            while i < items.len()
                invariant
                    i <= items.len(),
                    a.len() == items@.len(),
                    *value == JsonValue::Array(*items),
                    value@ == JsonModel::Array(a),
                    forall|k: int| 0 <= k < a.len() ==> a[k] == (#[trigger] items@[k])@,
                    array_entries(a, i as nat) == Ok::<Seq<EntryModel>, FailureModel>(table@),
                decreases items.len() - i,
            {
                if i as u64 >= 9223372036854775807u64 {
                    proof {
                        lemma_array_fails(a, (i + 1) as nat, a.len());
                    }
                    return Err(Failure::NumberOutOfRange);
                }
                let item = match lower(&items[i]) {
                    Ok(v) => v,
                    Err(e) => {
                        proof {
                            lemma_array_fails(a, (i + 1) as nat, a.len());
                        }
                        return Err(e);
                    },
                };
                table.set(Key::Index((i + 1) as i64), item);
                i = i + 1;
            }
            Ok(GuestValue::Table(table))
        },
        JsonValue::Object(members) => {
            let ghost m = Seq::new(
                members@.len(),
                |k: int|
                    if 0 <= k < members@.len() {
                        members@[k]@
                    } else {
                        MemberModel { name: Seq::empty(), value: JsonModel::Null }
                    },
            );
            assert(value@->Object_0 =~= m) by {
                reveal_with_fuel(<JsonValue as View>::view, 3);
                reveal_with_fuel(<Member as View>::view, 3);
            }
            let mut table = Table::with_capacity(members.len());
            let mut i: usize = 0;
            while i < members.len()
                invariant
                    i <= members.len(),
                    m.len() == members@.len(),
                    *value == JsonValue::Object(*members),
                    value@ == JsonModel::Object(m),
                    forall|k: int| 0 <= k < m.len() ==> m[k] == (#[trigger] members@[k])@,
                    object_entries(m, i as nat) == Ok::<Seq<EntryModel>, FailureModel>(table@),
                decreases members.len() - i,
            {
                let item = match lower(&members[i].value) {
                    Ok(v) => v,
                    Err(e) => {
                        proof {
                            lemma_object_fails(m, (i + 1) as nat, m.len());
                        }
                        return Err(e);
                    },
                };
                table.set(Key::Name(members[i].name.clone()), item);
                i = i + 1;
            }
            Ok(GuestValue::Table(table))
        },
    }
}

/// A failure among the first `n` items is the failure of any longer run.
pub proof fn lemma_array_fails(a: Seq<JsonModel>, n: nat, upto: nat)
    requires
        n <= upto <= a.len(),
        array_entries(a, n) is Err,
    ensures
        array_entries(a, upto) == array_entries(a, n),
    decreases upto - n,
{
    if n < upto {
        lemma_array_fails(a, n, (upto - 1) as nat);
    }
}

/// A failure among the first `n` members is the failure of any longer run.
pub proof fn lemma_object_fails(m: Seq<MemberModel>, n: nat, upto: nat)
    requires
        n <= upto <= m.len(),
        object_entries(m, n) is Err,
    ensures
        object_entries(m, upto) == object_entries(m, n),
    decreases upto - n,
{
    if n < upto {
        lemma_object_fails(m, n, (upto - 1) as nat);
    }
}

/// Turns a document into a guest value.
pub fn from_json_impl(value: JsonValue) -> (r: Result<GuestValue, Failure>)
    ensures
        guest_outcome(r, to_guest(value@)),
{
    lower(&value)
}

/// The document that a text denotes, where it denotes one: what
/// `serde_json::from_str` makes of the text.
pub uninterp spec fn json_document(text: Seq<char>) -> Option<JsonModel>;

/// The document that a parsed tree holds: its variants, one for one, with
/// each number by what it can be read as.
pub uninterp spec fn json_tree(tree: serde_json::Value) -> JsonModel;

/// `serde_json::from_str` at the type `serde_json::Value`: parses a text.
/// The outcome depends on the text alone; it is `Ok` exactly when the text
/// denotes a document, and the tree then holds that document.
#[verifier::external_body]
fn json_parse(text: &str) -> (r: Result<serde_json::Value, serde_json::Error>)
    ensures
        match r {
            Ok(tree) => json_document(text@) == Some(json_tree(tree)),
            Err(_) => json_document(text@) is None,
        },
{
    serde_json::from_str(text)
}

/// Moves a parsed tree into a [`JsonValue`], variant by variant. A number
/// is read through `serde_json::Number::as_i64` and `as_f64`; the members
/// of an object come in the order in which `serde_json::Map` hands them out.
#[verifier::external_body]
fn json_unpack(tree: serde_json::Value) -> (out: JsonValue)
    ensures
        out@ == json_tree(tree),
{
    match tree {
        serde_json::Value::Null => JsonValue::Null,
        serde_json::Value::Bool(b) => JsonValue::Bool(b),
        serde_json::Value::Number(n) => JsonValue::Number(
            JsonNumber { integer: n.as_i64(), float_bits: n.as_f64().map(|x| x.to_bits()) },
        ),
        serde_json::Value::String(s) => JsonValue::Str(s),
        serde_json::Value::Array(a) => JsonValue::Array(a.into_iter().map(json_unpack).collect()),
        serde_json::Value::Object(m) => JsonValue::Object(
            m.into_iter().map(|(name, x)| Member { name, value: json_unpack(x) }).collect(),
        ),
    }
}

/// `serde_json::Error` shown as text, through its `Display`.
#[verifier::external_body]
fn json_error_text(e: &serde_json::Error) -> (out: String) {
    e.to_string()
}

/// What decoding a text gives, by the document that the text denotes.
pub open spec fn decoded(text: Seq<char>, r: Result<GuestValue, Failure>) -> bool {
    match json_document(text) {
        Some(doc) => guest_outcome(r, to_guest(doc)),
        None => r matches Err(e) && e@ is Malformed,
    }
}

/// Parses a text of the interchange format.
pub fn parse(text: &str) -> (r: Result<JsonValue, Failure>)
    ensures
        match r {
            Ok(v) => json_document(text@) == Some(v@),
            Err(e) => json_document(text@) is None && e@ is Malformed,
        },
{
    match json_parse(text) {
        Ok(tree) => Ok(json_unpack(tree)),
        Err(e) => Err(Failure::Malformed { message: json_error_text(&e) }),
    }
}

/// Decodes a text of the interchange format into a guest value.
pub fn from_json(text: &str) -> (r: Result<GuestValue, Failure>)
    ensures
        decoded(text@, r),
{
    match parse(text) {
        Ok(value) => from_json_impl(value),
        Err(e) => Err(e),
    }
}

} // verus!
