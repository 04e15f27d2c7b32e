//! JSON documents as plain values.
//!
//! [`Json`] holds a document as a tree of plain values, so that the rest of
//! the library can read and build documents in verified code. Reading a text
//! into a tree and printing a tree as text is the work of `serde_json`. The
//! functions that call it, and those that carry a value between its type and
//! ours, are the trusted part of this module; what they return is named by
//! [`json_parse`] and [`json_text`].

use crate::text::str_eq;
use serde_json::Value;
use vstd::prelude::*;

verus! {

/// `serde_json::Value`, the tree that `serde_json` reads and prints.
#[verifier::external_type_specification]
#[verifier::external_body]
pub struct ExValue(serde_json::Value);

/// `serde_json::Error`, what `serde_json` reports of a text that it cannot
/// read.
#[verifier::external_type_specification]
#[verifier::external_body]
pub struct ExError(serde_json::Error);

/// A JSON number: a non-negative integer, a negative integer, or any other
/// number kept as the decimal text that stands for it.
#[derive(Debug, PartialEq, Eq)]
pub enum Number {
    Unsigned(u64),
    Negative(i64),
    Real(String),
}

/// A JSON document. An object keeps its members in order.
#[derive(Debug, PartialEq, Eq)]
pub enum Json {
    Null,
    Bool(bool),
    Number(Number),
    Str(String),
    Array(Vec<Json>),
    Object(Vec<(String, Json)>),
}

/// The mathematical model of a [`Number`].
pub enum NumberView {
    Unsigned(u64),
    Negative(i64),
    Real(Seq<char>),
}

/// The mathematical model of a [`Json`] document.
pub enum JsonView {
    Null,
    Bool(bool),
    Number(NumberView),
    Str(Seq<char>),
    Array(Seq<JsonView>),
    Object(Seq<(Seq<char>, JsonView)>),
}

impl View for Number {
    type V = NumberView;

    open spec fn view(&self) -> NumberView {
        match self {
            Number::Unsigned(u) => NumberView::Unsigned(*u),
            Number::Negative(i) => NumberView::Negative(*i),
            Number::Real(t) => NumberView::Real(t@),
        }
    }
}

/// The model of a document, by recursion over the tree.
pub open spec fn model(doc: Json) -> JsonView
    decreases doc,
{
    match doc {
        Json::Null => JsonView::Null,
        Json::Bool(b) => JsonView::Bool(b),
        Json::Number(n) => JsonView::Number(n@),
        Json::Str(s) => JsonView::Str(s@),
        Json::Array(items) => JsonView::Array(
            Seq::new(
                items@.len(),
                |i: int|
                    if 0 <= i < items@.len() {
                        model(items@[i])
                    } else {
                        JsonView::Null
                    },
            ),
        ),
        Json::Object(members) => JsonView::Object(
            Seq::new(
                members@.len(),
                |i: int|
                    if 0 <= i < members@.len() {
                        (members@[i].0@, model(members@[i].1))
                    } else {
                        (Seq::empty(), JsonView::Null)
                    },
            ),
        ),
    }
}

impl View for Json {
    type V = JsonView;

    open spec fn view(&self) -> JsonView {
        model(*self)
    }
}

/// The models of the items of an array.
pub open spec fn items_view(items: Seq<Json>) -> Seq<JsonView> {
    Seq::new(items.len(), |i: int| items[i]@)
}

/// The models of the members of an object.
pub open spec fn members_view(members: Seq<(String, Json)>) -> Seq<(Seq<char>, JsonView)> {
    Seq::new(members.len(), |i: int| (members[i].0@, members[i].1@))
}

/// The model of an array is the sequence of its items' models.
pub proof fn lemma_array_view(items: Vec<Json>)
    ensures
        Json::Array(items)@ == JsonView::Array(items_view(items@)),
{
    assert(Json::Array(items)@->Array_0 =~= items_view(items@));
}

/// The model of an object is the sequence of its members' models.
pub proof fn lemma_object_view(members: Vec<(String, Json)>)
    ensures
        Json::Object(members)@ == JsonView::Object(members_view(members@)),
{
    assert(Json::Object(members)@->Object_0 =~= members_view(members@));
}

/// The value of the first member named `key`, if there is one.
pub open spec fn lookup(members: Seq<(Seq<char>, JsonView)>, key: Seq<char>) -> Option<JsonView>
    decreases members.len(),
{
    if members.len() == 0 {
        None
    } else if members[0].0 == key {
        Some(members[0].1)
    } else {
        lookup(members.skip(1), key)
    }
}

/// The members with `key` bound to `value`: the first member of that name
/// gets the new value where it stands, and where there is none the new member
/// is added at the end.
pub open spec fn put(
    members: Seq<(Seq<char>, JsonView)>,
    key: Seq<char>,
    value: JsonView,
) -> Seq<(Seq<char>, JsonView)>
    decreases members.len(),
{
    if members.len() == 0 {
        seq![(key, value)]
    } else if members[0].0 == key {
        seq![(key, value)] + members.skip(1)
    } else {
        seq![members[0]] + put(members.skip(1), key, value)
    }
}

/// After `key` is bound to `value`, looking `key` up gives `value`, and
/// looking any other name up gives what it gave before.
pub proof fn lemma_put_lookup(
    members: Seq<(Seq<char>, JsonView)>,
    key: Seq<char>,
    value: JsonView,
    name: Seq<char>,
)
    ensures
        lookup(put(members, key, value), name) == if name == key {
            Some(value)
        } else {
            lookup(members, name)
        },
    decreases members.len(),
{
    let after = put(members, key, value);
    if members.len() == 0 {
        assert(after[0] == (key, value));
        assert(after.skip(1) =~= Seq::empty());
        assert(lookup(after.skip(1), name) is None);
    } else if members[0].0 == key {
        assert(after[0] == (key, value));
        assert(after.skip(1) =~= members.skip(1));
    } else {
        lemma_put_lookup(members.skip(1), key, value, name);
        assert(after[0] == members[0]);
        assert(after.skip(1) =~= put(members.skip(1), key, value));
    }
}

/// A member added at the end is found under its name where no earlier
/// member bears it, and changes nothing for any other name.
pub proof fn lemma_lookup_push(
    members: Seq<(Seq<char>, JsonView)>,
    key: Seq<char>,
    value: JsonView,
    name: Seq<char>,
)
    ensures
        lookup(members.push((key, value)), name) == match lookup(members, name) {
            Some(v) => Some(v),
            None => if name == key {
                Some(value)
            } else {
                None
            },
        },
    decreases members.len(),
{
    let after = members.push((key, value));
    if members.len() == 0 {
        assert(after[0] == (key, value));
        assert(after.skip(1) =~= Seq::empty());
        assert(lookup(after.skip(1), name) is None);
    } else {
        assert(after[0] == members[0]);
        assert(after.skip(1) =~= members.skip(1).push((key, value)));
        lemma_lookup_push(members.skip(1), key, value, name);
    }
}

impl JsonView {
    /// The member `key` of an object; `None` for a missing member and for a
    /// document that is no object.
    pub open spec fn member(self, key: Seq<char>) -> Option<JsonView> {
        match self {
            JsonView::Object(members) => lookup(members, key),
            _ => None,
        }
    }

    /// A member that is missing or `null` counts as absent.
    pub open spec fn present(self, key: Seq<char>) -> Option<JsonView> {
        match self.member(key) {
            Some(JsonView::Null) => None,
            other => other,
        }
    }
}

/// What `serde_json::from_str` makes of a text: the document that the text
/// denotes, or `None` where the text is not one JSON document.
pub uninterp spec fn json_parse(text: Seq<char>) -> Option<JsonView>;

/// The compact text that `serde_json` prints for a document.
pub uninterp spec fn json_text(doc: JsonView) -> Seq<char>;

/// Carries each variant of `serde_json::Value` over to the same variant of
/// [`Json`], item by item and member by member, in order. A number becomes
/// `Unsigned` where `as_u64` gives it, `Negative` where only `as_i64` does,
/// and otherwise `Real` with the text that `serde_json` prints for it.
#[verifier::external_body]
fn import_value(v: Value) -> Json {
    match v {
        Value::Null => Json::Null,
        Value::Bool(b) => Json::Bool(b),
        Value::Number(n) => Json::Number(
            match (n.as_u64(), n.as_i64()) {
                (Some(u), _) => Number::Unsigned(u),
                (_, Some(i)) => Number::Negative(i),
                _ => Number::Real(n.to_string()),
            },
        ),
        Value::String(s) => Json::Str(s),
        Value::Array(a) => Json::Array(a.into_iter().map(import_value).collect()),
        Value::Object(o) => Json::Object(o.into_iter().map(|(k, v)| (k, import_value(v))).collect()),
    }
}

/// Carries each variant of [`Json`] over to the same variant of
/// `serde_json::Value`. A `Real` is read back by `serde_json` as a number and
/// becomes `null` where its text is none.
#[verifier::external_body]
fn export_value(v: &Json) -> Value {
    match v {
        Json::Null => Value::Null,
        Json::Bool(b) => Value::Bool(*b),
        Json::Number(Number::Unsigned(u)) => Value::from(*u),
        Json::Number(Number::Negative(i)) => Value::from(*i),
        Json::Number(Number::Real(t)) => serde_json::from_str(t).map_or(Value::Null, Value::Number),
        Json::Str(s) => Value::String(s.clone()),
        Json::Array(a) => Value::Array(a.iter().map(export_value).collect()),
        Json::Object(o) => Value::Object(o.iter().map(|(k, v)| (k.clone(), export_value(v))).collect()),
    }
}

/// Calls `serde_json::from_str` for a `serde_json::Value` and carries the
/// value over to a [`Json`]. The result is the document named by
/// [`json_parse`], and an error exactly where that is `None`.
#[verifier::external_body]
fn read_document(text: &str) -> (r: Result<Json, serde_json::Error>)
    ensures
        match r {
            Ok(doc) => json_parse(text@) == Some(doc@),
            Err(_) => json_parse(text@) is None,
        },
{
    serde_json::from_str::<Value>(text).map(import_value)
}

/// Prints a document with `serde_json`'s `Display` for `Value`, which writes
/// compact JSON. The result is the text named by [`json_text`].
#[verifier::external_body]
fn print_document(doc: &Json) -> (r: String)
    ensures
        r@ == json_text(doc@),
{
    export_value(doc).to_string()
}

/// Reads a text as one JSON document.
pub fn parse(text: &str) -> (r: Option<Json>)
    ensures
        match r {
            Some(doc) => json_parse(text@) == Some(doc@),
            None => json_parse(text@) is None,
        },
{
    match read_document(text) {
        Ok(doc) => Some(doc),
        Err(_) => None,
    }
}

/// The compact JSON text of a document.
pub fn to_text(doc: &Json) -> (r: String)
    ensures
        r@ == json_text(doc@),
{
    print_document(doc)
}

impl Json {
    /// The member `key` of an object.
    pub fn get(&self, key: &str) -> (r: Option<&Json>)
        ensures
            match r {
                Some(v) => self@.member(key@) == Some(v@),
                None => self@.member(key@) is None,
            },
    {
        match self {
            Json::Object(members) => {
                proof {
                    lemma_object_view(*members);
                }
                let ghost all = members_view(members@);
                let mut i: usize = 0;
                assert(all.skip(0) =~= all);
                while i < members.len()
                    invariant
                        i <= members.len(),
                        all == members_view(members@),
                        self@ == JsonView::Object(all),
                        lookup(all, key@) == lookup(all.skip(i as int), key@),
                    decreases members.len() - i,
                {
                    assert(all.skip(i as int)[0] == all[i as int]);
                    if str_eq(members[i].0.as_str(), key) {
                        return Some(&members[i].1);
                    }
                    proof {
                        assert(all.skip(i as int).skip(1) =~= all.skip(i + 1));
                    }
                    i += 1;
                }
                None
            },
            _ => None,
        }
    }

    /// The member `key` of an object, where it is there and not `null`.
    pub fn get_present(&self, key: &str) -> (r: Option<&Json>)
        ensures
            match r {
                Some(v) => self@.present(key@) == Some(v@),
                None => self@.present(key@) is None,
            },
    {
        match self.get(key) {
            Some(Json::Null) => None,
            other => other,
        }
    }
}

/// Adds a member at the end of the members of an object.
pub fn push_member(members: &mut Vec<(String, Json)>, key: &str, value: Json)
    ensures
        members_view(final(members)@) == members_view(old(members)@).push((key@, value@)),
{
    members.push((key.to_owned(), value));
    assert(members_view(members@) =~= members_view(old(members)@).push((key@, value@)));
}

/// Binds `key` to `value` in the members of an object, as [`put`] says.
pub fn put_member(members: &mut Vec<(String, Json)>, key: String, value: Json)
    ensures
        members_view(final(members)@) == put(members_view(old(members)@), key@, value@),
{
    let ghost before = members_view(members@);
    let mut i: usize = 0;
    assert(before.skip(0) =~= before);
    assert(before.take(0) + put(before, key@, value@) =~= put(before, key@, value@));
    while i < members.len()
        invariant
            i <= members.len(),
            members@ == old(members)@,
            before == members_view(members@),
            put(before, key@, value@) == before.take(i as int) + put(
                before.skip(i as int),
                key@,
                value@,
            ),
        decreases members.len() - i,
    {
        if str_eq(members[i].0.as_str(), key.as_str()) {
            members[i] = (key, value);
            proof {
                let after = members_view(members@);
                assert(after =~= before.take(i as int) + (seq![(key@, value@)] + before.skip(
                    i as int,
                ).skip(1)));
            }
            return ;
        }
        proof {
            let rest = before.skip(i as int);
            assert(rest.skip(1) =~= before.skip(i + 1));
            assert(before.take(i as int) + (seq![rest[0]] + put(rest.skip(1), key@, value@))
                =~= before.take(i + 1) + put(before.skip(i + 1), key@, value@));
        }
        i += 1;
    }
    members.push((key, value));
    proof {
        let after = members_view(members@);
        assert(before.skip(i as int) =~= Seq::empty());
        assert(after =~= before.take(i as int) + seq![(key@, value@)]);
    }
}

/// A copy of a document.
#[verifier::loop_isolation(false)]
pub fn copy_json(v: &Json) -> (r: Json)
    ensures
        r@ == v@,
    decreases v,
{
    match v {
        Json::Null => Json::Null,
        Json::Bool(b) => Json::Bool(*b),
        Json::Number(Number::Unsigned(u)) => Json::Number(
            Number::Unsigned(*u),
        ),
        Json::Number(Number::Negative(i)) => Json::Number(
            Number::Negative(*i),
        ),
        Json::Number(Number::Real(t)) => Json::Number(
            Number::Real(t.clone()),
        ),
        Json::Str(s) => Json::Str(s.clone()),
        Json::Array(items) => {
            let mut out: Vec<Json> = Vec::new();
            let mut i: usize = 0;
            while i < items.len()
                invariant
                    i <= items.len(),
                    out.len() == i,
                    forall|k: int| 0 <= k < i ==> (#[trigger] out[k])@ == items[k]@,
                decreases items.len() - i,
            {
                out.push(copy_json(&items[i]));
                i += 1;
            }
            proof {
                lemma_array_view(*items);
                lemma_array_view(out);
                assert(items_view(out@) =~= items_view(items@));
            }
            Json::Array(out)
        },
        Json::Object(members) => {
            let out = copy_members(members);
            proof {
                lemma_object_view(*members);
                lemma_object_view(out);
            }
            Json::Object(out)
        },
    }
}

/// A copy of the members of an object.
#[verifier::loop_isolation(false)]
pub fn copy_members(members: &Vec<(String, Json)>) -> (r: Vec<(String, Json)>)
    ensures
        members_view(r@) == members_view(members@),
    decreases members,
{
    let mut out: Vec<(String, Json)> = Vec::new();
    let mut i: usize = 0;
    while i < members.len()
        invariant
            i <= members.len(),
            out.len() == i,
            forall|k: int|
                0 <= k < i ==> (#[trigger] out[k]).0@ == members[k].0@ && out[k].1@
                    == members[k].1@,
        decreases members.len() - i,
    {
        out.push((members[i].0.clone(), copy_json(&members[i].1)));
        i += 1;
    }
    assert(members_view(out@) =~= members_view(members@));
    out
}

impl Clone for Json {
    fn clone(&self) -> (r: Self)
        ensures
            r@ == self@,
    {
        copy_json(self)
    }
}

} // verus!
