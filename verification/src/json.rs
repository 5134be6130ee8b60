//! JSON values as the protocol engine sees them.
//!
//! The text form of JSON is left to `serde_json`: this module holds the tree
//! that the rest of the crate reads and builds, its mathematical model, and the
//! two calls that turn bytes into a tree and a tree into bytes.

use serde_json::Value;
use vstd::prelude::*;

verus! {

/// `serde_json::Number`, carried through as it is: nothing is said of what
/// it holds.
#[verifier::external_type_specification]
#[verifier::external_body]
pub struct ExNumber(serde_json::Number);

/// `serde_json::Value`, the tree that the parser gives and the writer takes:
/// nothing is said of what it holds.
#[verifier::external_type_specification]
#[verifier::external_body]
pub struct ExValue(serde_json::Value);

/// A JSON value.
///
/// Integers are held as plain machine integers. A number that is not an
/// integer between `i64::MIN` and `u64::MAX` is carried through untouched in
/// `Real`. The members of an object keep the order in which they were written.
#[derive(Debug, PartialEq)]
pub enum Json {
    Null,
    Bool(bool),
    /// An integer that is not negative.
    Unsigned(u64),
    /// An integer; the parser gives this variant to the negative ones.
    Signed(i64),
    /// Any other number.
    Real(serde_json::Number),
    String(String),
    Array(Vec<Json>),
    Object(Vec<(String, Json)>),
}

/// The mathematical model of a [`Json`] value: what contracts speak of.
///
/// `Unsigned` and `Signed` both map to `Integer`, so that `5` has one model
/// however it is held.
pub enum JsonModel {
    Null,
    Bool(bool),
    Integer(int),
    Real(serde_json::Number),
    String(Seq<char>),
    Array(Seq<JsonModel>),
    Object(Seq<(Seq<char>, JsonModel)>),
}

/// The model of a value, by recursion over the tree.
pub open spec fn model_of(value: Json) -> JsonModel
    decreases value,
{
    match value {
        Json::Null => JsonModel::Null,
        Json::Bool(b) => JsonModel::Bool(b),
        Json::Unsigned(u) => JsonModel::Integer(u as int),
        Json::Signed(i) => JsonModel::Integer(i as int),
        Json::Real(n) => JsonModel::Real(n),
        Json::String(s) => JsonModel::String(s@),
        Json::Array(items) => JsonModel::Array(
            Seq::new(
                items@.len(),
                |i: int|
                    if 0 <= i < items@.len() {
                        model_of(items@[i])
                    } else {
                        JsonModel::Null
                    },
            ),
        ),
        Json::Object(members) => JsonModel::Object(
            Seq::new(
                members@.len(),
                |i: int|
                    if 0 <= i < members@.len() {
                        (members@[i].0@, model_of(members@[i].1))
                    } else {
                        (Seq::empty(), JsonModel::Null)
                    },
            ),
        ),
    }
}

impl View for Json {
    type V = JsonModel;

    open spec fn view(&self) -> JsonModel {
        model_of(*self)
    }
}

/// The members of an object, each name with the model of its value.
pub open spec fn members_view(members: Seq<(String, Json)>) -> Seq<(Seq<char>, JsonModel)> {
    Seq::new(members.len(), |i: int| (members[i].0@, members[i].1@))
}

/// The elements of an array, each by its model.
pub open spec fn items_view(items: Seq<Json>) -> Seq<JsonModel> {
    Seq::new(items.len(), |i: int| items[i]@)
}

/// The value of the last member called `key`, if there is one.
pub open spec fn lookup(members: Seq<(Seq<char>, JsonModel)>, key: Seq<char>) -> Option<JsonModel>
    decreases members.len(),
{
    if members.len() == 0 {
        None
    } else if members.last().0 == key {
        Some(members.last().1)
    } else {
        lookup(members.drop_last(), key)
    }
}

impl JsonModel {
    /// Member `key` of an object; `None` for anything that is not an object or
    /// has no such member. Where a name occurs twice the last one counts.
    pub open spec fn get(self, key: Seq<char>) -> Option<JsonModel> {
        match self {
            JsonModel::Object(members) => lookup(members, key),
            _ => None,
        }
    }

    /// The integer, where it fits an `i64`.
    pub open spec fn as_i64(self) -> Option<i64> {
        match self {
            JsonModel::Integer(i) if i64::MIN <= i <= i64::MAX => Some(i as i64),
            _ => None,
        }
    }

    /// The integer, where it fits a `u64`.
    pub open spec fn as_u64(self) -> Option<u64> {
        match self {
            JsonModel::Integer(i) if 0 <= i <= u64::MAX => Some(i as u64),
            _ => None,
        }
    }
}

/// An object's view is the view of its members, one by one.
pub proof fn lemma_object_view(members: Vec<(String, Json)>)
    ensures
        Json::Object(members)@ == JsonModel::Object(members_view(members@)),
{
    let whole = Json::Object(members);
    assert(whole.view() is Object);
    let held = whole.view()->Object_0;
    assert(held.len() == members@.len());
    assert forall|i: int| 0 <= i < held.len() implies held[i] == members_view(members@)[i] by {}
    assert(held =~= members_view(members@));
}

/// An array's view is the view of its elements, one by one.
pub proof fn lemma_array_view(items: Vec<Json>)
    ensures
        Json::Array(items)@ == JsonModel::Array(items_view(items@)),
{
    assert(Json::Array(items)@->Array_0 =~= items_view(items@));
}

/// The value of the last member called `key`, if there is one.
pub fn find_member<'a>(members: &'a Vec<(String, Json)>, key: &str) -> (found: Option<&'a Json>)
    ensures
        match found {
            Some(value) => lookup(members_view(members@), key@) == Some(value@),
            None => lookup(members_view(members@), key@) is None,
        },
{
    let wanted: String = key.to_owned();
    let ghost all = members_view(members@);
    let mut at: usize = members.len();
    assert(all.subrange(0, at as int) =~= all);
    while at > 0
        invariant
            at <= members.len(),
            wanted@ == key@,
            all == members_view(members@),
            lookup(all, key@) == lookup(all.subrange(0, at as int), key@),
        decreases at,
    {
        let ghost prefix = all.subrange(0, at as int);
        at = at - 1;
        assert(prefix.last() == all[at as int]);
        assert(prefix.drop_last() =~= all.subrange(0, at as int));
        if members[at].0 == wanted {
            return Some(&members[at].1);
        }
    }
    assert(all.subrange(0, 0).len() == 0);
    None
}

impl Json {
    /// Member `key` of an object.
    pub fn get(&self, key: &str) -> (found: Option<&Json>)
        ensures
            match found {
                Some(value) => self@.get(key@) == Some(value@),
                None => self@.get(key@) is None,
            },
    {
        match self {
            Json::Object(members) => {
                proof {
                    lemma_object_view(*members);
                }
                find_member(members, key)
            },
            _ => None,
        }
    }

    /// The string, if the value is one.
    pub fn as_str(&self) -> (text: Option<&String>)
        ensures
            match text {
                Some(s) => self@ == JsonModel::String(s@),
                None => !(self@ is String),
            },
    {
        match self {
            Json::String(s) => Some(s),
            _ => None,
        }
    }

    /// The truth value, if the value is one.
    pub fn as_bool(&self) -> (b: Option<bool>)
        ensures
            match b {
                Some(b) => self@ == JsonModel::Bool(b),
                None => !(self@ is Bool),
            },
    {
        match self {
            Json::Bool(b) => Some(*b),
            _ => None,
        }
    }

    /// The number as an `i64`: an integer that fits one, and nothing else.
    pub fn as_i64(&self) -> (n: Option<i64>)
        ensures
            n == self@.as_i64(),
    {
        match self {
            Json::Unsigned(u) => if *u <= 0x7fff_ffff_ffff_ffffu64 {
                Some(*u as i64)
            } else {
                None
            },
            Json::Signed(i) => Some(*i),
            _ => None,
        }
    }

    /// The number as a `u64`: an integer that is not negative, and nothing else.
    pub fn as_u64(&self) -> (n: Option<u64>)
        ensures
            n == self@.as_u64(),
    {
        match self {
            Json::Unsigned(u) => Some(*u),
            Json::Signed(i) => if *i >= 0 {
                Some(*i as u64)
            } else {
                None
            },
            _ => None,
        }
    }
}

/// What `serde_json::from_slice` makes of `bytes` as one JSON value: the model
/// of the tree, or `None` where it reports an error.
pub uninterp spec fn json_parse(bytes: Seq<u8>) -> Option<JsonModel>;

/// The compact text that `serde_json` writes for a value.
pub uninterp spec fn json_text(value: JsonModel) -> Seq<u8>;

/// Moves a tree of `serde_json` into a [`Json`], variant by variant. A number
/// goes to `Unsigned` where `Number::as_u64` gives one, else to `Signed` where
/// `Number::as_i64` gives one, else it is kept as it is.
#[verifier::external_body]
fn lower(value: Value) -> Json {
    match value {
        Value::Null => Json::Null,
        Value::Bool(b) => Json::Bool(b),
        Value::Number(n) => match (n.as_u64(), n.as_i64()) {
            (Some(u), _) => Json::Unsigned(u),
            (None, Some(i)) => Json::Signed(i),
            (None, None) => Json::Real(n),
        },
        Value::String(s) => Json::String(s),
        Value::Array(a) => Json::Array(a.into_iter().map(lower).collect()),
        Value::Object(m) => Json::Object(m.into_iter().map(|(k, v)| (k, lower(v))).collect()),
    }
}

/// Moves a [`Json`] into a tree of `serde_json`, variant by variant.
#[verifier::external_body]
fn raise(value: &Json) -> Value {
    match value {
        Json::Null => Value::Null,
        Json::Bool(b) => Value::Bool(*b),
        Json::Unsigned(u) => Value::from(*u),
        Json::Signed(i) => Value::from(*i),
        Json::Real(n) => Value::Number(n.clone()),
        Json::String(s) => Value::String(s.clone()),
        Json::Array(a) => Value::Array(a.iter().map(raise).collect()),
        Json::Object(m) => Value::Object(m.iter().map(|(k, v)| (k.clone(), raise(v))).collect()),
    }
}

/// `serde_json::from_slice` on `bytes`. The contract gives the outcome its
/// name, [`json_parse`], and claims nothing else: the parser's result depends
/// on the bytes alone.
#[verifier::external_body]
pub(crate) fn parse(bytes: &[u8]) -> (parsed: Option<Json>)
    ensures
        match parsed {
            Some(value) => json_parse(bytes@) == Some(value@),
            None => json_parse(bytes@) is None,
        },
{
    serde_json::from_slice::<Value>(bytes).ok().map(lower)
}

/// `Value::to_string` on the value, as bytes. The contract gives the text its
/// name, [`json_text`], and adds one fact: the text holds no line feed. The
/// compact writer puts no white space between tokens, and inside a string it
/// writes every byte below `0x20` as an escape sequence.
#[verifier::external_body]
pub(crate) fn print(value: &Json) -> (text: Vec<u8>)
    ensures
        text@ == json_text(value@),
        !text@.contains(0x0Au8),
{
    raise(value).to_string().into_bytes()
}

} // verus!
