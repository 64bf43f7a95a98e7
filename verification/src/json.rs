//! A JSON document held as plain values, and the reading of one from text.

use crate::text::view_of;
use vstd::prelude::*;

verus! {

/// One `name: value` entry of a JSON object.
#[derive(Debug)]
pub struct Member {
    pub name: String,
    pub value: Json,
}

/// A JSON document. Integers keep their exact value; a number with a
/// fraction or an exponent is kept as its JSON text.
#[derive(Debug)]
pub enum Json {
    Null,
    Bool(bool),
    Unsigned(u64),
    Signed(i64),
    Real(String),
    Text(String),
    Array(Vec<Json>),
    Object(Vec<Member>),
}

/// The mathematical value of a [`Json`] document.
pub enum JsonValue {
    Null,
    Bool(bool),
    Int(int),
    Real(Seq<char>),
    Text(Seq<char>),
    Array(Seq<JsonValue>),
    Object(Seq<(Seq<char>, JsonValue)>),
}

/// The values of a sequence of documents, in order.
pub open spec fn values_of(items: Seq<Json>) -> Seq<JsonValue>
    decreases items,
{
    if items.len() == 0 {
        Seq::empty()
    } else {
        values_of(items.drop_last()).push(items.last().view())
    }
}

/// The entries of a sequence of members, in order.
pub open spec fn entries_of(members: Seq<Member>) -> Seq<(Seq<char>, JsonValue)>
    decreases members,
{
    if members.len() == 0 {
        Seq::empty()
    } else {
        entries_of(members.drop_last()).push((members.last().name@, members.last().value.view()))
    }
}

impl View for Json {
    type V = JsonValue;

    open spec fn view(&self) -> JsonValue
        decreases self,
    {
        match self {
            Json::Null => JsonValue::Null,
            Json::Bool(b) => JsonValue::Bool(*b),
            Json::Unsigned(n) => JsonValue::Int(*n as int),
            Json::Signed(n) => JsonValue::Int(*n as int),
            Json::Real(t) => JsonValue::Real(t@),
            Json::Text(t) => JsonValue::Text(t@),
            Json::Array(items) => JsonValue::Array(values_of(items@)),
            Json::Object(members) => JsonValue::Object(entries_of(members@)),
        }
    }
}

#[verifier::external_type_specification]
#[verifier::external_body]
pub struct ExValue(serde_json::Value);

/// The document that a `serde_json::Value` holds. Whole numbers are held
/// as such, other numbers as `serde_json` writes them; the members of an
/// object come in the order in which `serde_json` holds them.
pub uninterp spec fn held_by(value: serde_json::Value) -> JsonValue;

/// What `serde_json` reads out of a text: the document it holds, or nothing
/// where the text is not one JSON document.
pub uninterp spec fn json_of_text(text: Seq<char>) -> Option<JsonValue>;

/// `serde_json::from_str`, read as a `serde_json::Value`: the value of the
/// document that the text holds, or `None` where `serde_json` rejects the
/// text.
#[verifier::external_body]
fn read_value(text: &str) -> (r: Option<serde_json::Value>)
    ensures
        match r {
            Some(value) => json_of_text(text@) == Some(held_by(value)),
            None => json_of_text(text@) is None,
        },
{
    serde_json::from_str::<serde_json::Value>(text).ok()
}

/// Moves a `serde_json::Value` into a [`Json`], variant by variant. A
/// number comes as `Number::as_u64` or `Number::as_i64` give it, and as
/// `Number` writes it where both give none.
#[verifier::external_body]
fn json_from_value(value: serde_json::Value) -> (r: Json)
    ensures
        r@ == held_by(value),
{
    match value {
        serde_json::Value::Null => Json::Null,
        serde_json::Value::Bool(b) => Json::Bool(b),
        serde_json::Value::Number(n) => match (n.as_u64(), n.as_i64()) {
            (Some(u), _) => Json::Unsigned(u),
            (_, Some(i)) => Json::Signed(i),
            _ => Json::Real(n.to_string()),
        },
        serde_json::Value::String(t) => Json::Text(t),
        serde_json::Value::Array(items) => Json::Array(items.into_iter().map(json_from_value).collect()),
        serde_json::Value::Object(members) => Json::Object(
            members.into_iter().map(|(name, v)| Member { name, value: json_from_value(v) }).collect(),
        ),
    }
}

/// `entries_of` keeps the length and reads each member in place.
pub proof fn lemma_entries_of(members: Seq<Member>)
    ensures
        entries_of(members).len() == members.len(),
        forall|i: int|
            0 <= i < members.len() ==> #[trigger] entries_of(members)[i] == (
                members[i].name@,
                members[i].value@,
            ),
    decreases members.len(),
{
    if members.len() > 0 {
        lemma_entries_of(members.drop_last());
        assert(entries_of(members) == entries_of(members.drop_last()).push(
            (members.last().name@, members.last().value@),
        ));
    }
}

/// `values_of` keeps the length and reads each document in place.
pub proof fn lemma_values_of(items: Seq<Json>)
    ensures
        values_of(items).len() == items.len(),
        forall|i: int| 0 <= i < items.len() ==> #[trigger] values_of(items)[i] == items[i]@,
    decreases items.len(),
{
    if items.len() > 0 {
        lemma_values_of(items.drop_last());
        assert(values_of(items) == values_of(items.drop_last()).push(items.last()@));
    }
}

/// A deep copy of each document of `items`.
fn duplicate_all(items: &Vec<Json>) -> (r: Vec<Json>)
    ensures
        values_of(r@) == values_of(items@),
    decreases items,
{
    let mut out: Vec<Json> = Vec::new();
    let mut i: usize = 0;
    while i < items.len()
        invariant
            i <= items.len(),
            out.len() == i,
            forall|k: int| 0 <= k < i ==> out@[k]@ == items@[k]@,
        decreases items.len() - i,
    {
        let copy = items[i].duplicate();
        out.push(copy);
        i += 1;
    }
    proof {
        lemma_values_of(out@);
        lemma_values_of(items@);
        assert(values_of(out@) =~= values_of(items@));
    }
    out
}

/// A deep copy of each member of `members`.
fn duplicate_members(members: &Vec<Member>) -> (r: Vec<Member>)
    ensures
        entries_of(r@) == entries_of(members@),
    decreases members,
{
    let mut out: Vec<Member> = Vec::new();
    let mut i: usize = 0;
    while i < members.len()
        invariant
            i <= members.len(),
            out.len() == i,
            forall|k: int|
                0 <= k < i ==> out@[k].name@ == members@[k].name@ && out@[k].value@
                    == members@[k].value@,
        decreases members.len() - i,
    {
        let copy = Member { name: members[i].name.clone(), value: members[i].value.duplicate() };
        out.push(copy);
        i += 1;
    }
    proof {
        lemma_entries_of(out@);
        lemma_entries_of(members@);
        assert(entries_of(out@) =~= entries_of(members@));
    }
    out
}

impl Clone for Json {
    fn clone(&self) -> (r: Json)
        ensures
            r@ == self@,
    {
        self.duplicate()
    }
}

impl Clone for Member {
    fn clone(&self) -> (r: Member)
        ensures
            r.name@ == self.name@,
            r.value@ == self.value@,
    {
        Member { name: self.name.clone(), value: self.value.duplicate() }
    }
}

impl Json {
    /// A deep copy of the document.
    pub fn duplicate(&self) -> (r: Json)
        ensures
            r@ == self@,
        decreases self,
    {
        match self {
            Json::Null => Json::Null,
            Json::Bool(b) => Json::Bool(*b),
            Json::Unsigned(n) => Json::Unsigned(*n),
            Json::Signed(n) => Json::Signed(*n),
            Json::Real(t) => Json::Real(t.clone()),
            Json::Text(t) => Json::Text(t.clone()),
            Json::Array(items) => Json::Array(duplicate_all(items)),
            Json::Object(members) => Json::Object(duplicate_members(members)),
        }
    }

    /// Reads one JSON document from `text`.
    pub fn parse(text: &str) -> (r: Option<Json>)
        ensures
            view_of(r) == json_of_text(text@),
    {
        match read_value(text) {
            Some(value) => Some(json_from_value(value)),
            None => None,
        }
    }
}

} // verus!
