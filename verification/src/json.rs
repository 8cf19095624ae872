//! JSON values: what they hold, how they are taken apart, built, read and printed.
//!
//! The values and the work on their text are `serde_json`'s. What a value holds is a tree, and
//! every function here is stated over the trees of its arguments.
use vstd::prelude::*;

use crate::repr::opt_view;

verus! {

/// What a JSON value holds. A fractional number is known by its bits.
pub ghost enum JsonV {
    Null,
    Bool(bool),
    Int(int),
    Float(u64),
    Str(Seq<char>),
    Arr(Seq<JsonV>),
    Obj(Map<Seq<char>, JsonV>),
}

#[verifier::external_type_specification]
#[verifier::external_body]
pub struct ExValue(serde_json::Value);

/// The tree that a `serde_json::Value` holds.
pub uninterp spec fn json(v: serde_json::Value) -> JsonV;

/// The tree that a text spells, where it spells one.
pub uninterp spec fn json_text(text: Seq<char>) -> Option<JsonV>;

/// The tree that bytes spell, or what is wrong with them.
pub uninterp spec fn json_bytes(bytes: Seq<u8>) -> Result<JsonV, Seq<char>>;

/// The compact text of a tree.
pub uninterp spec fn json_print(tree: JsonV) -> Seq<char>;

/// The trees of a sequence of values.
pub open spec fn trees(s: Seq<serde_json::Value>) -> Seq<JsonV> {
    Seq::new(s.len(), |i: int| json(s[i]))
}

/// No two members have one name.
pub open spec fn own_names(fields: Seq<(String, serde_json::Value)>) -> bool {
    forall|i: int, j: int|
        0 <= i < j < fields.len() ==> (#[trigger] fields[i]).0@ != (#[trigger] fields[j]).0@
}

/// The members of an object, each under its own name.
pub open spec fn members(fields: Seq<(String, serde_json::Value)>) -> Map<Seq<char>, JsonV>
    decreases fields.len(),
{
    if fields.len() == 0 {
        Map::empty()
    } else {
        members(fields.drop_last()).insert(fields.last().0@, json(fields.last().1))
    }
}

/// The tree holds no fractional number, and nests at most `n` arrays and objects.
pub open spec fn exact(tree: JsonV, n: nat) -> bool
    decreases n,
{
    match tree {
        JsonV::Float(_) => false,
        JsonV::Arr(items) => n > 0 && forall|i: int|
            0 <= i < items.len() ==> exact(#[trigger] items[i], (n - 1) as nat),
        JsonV::Obj(fields) => n > 0 && forall|k: Seq<char>|
            fields.contains_key(k) ==> exact(#[trigger] fields[k], (n - 1) as nat),
        _ => true,
    }
}

// ------------------------------------------------------------------------------------------
// Taking apart
// ------------------------------------------------------------------------------------------

pub open spec fn tree_str(tree: JsonV) -> Option<Seq<char>> {
    match tree {
        JsonV::Str(s) => Some(s),
        _ => None,
    }
}

pub open spec fn tree_bool(tree: JsonV) -> Option<bool> {
    match tree {
        JsonV::Bool(b) => Some(b),
        _ => None,
    }
}

pub open spec fn tree_u64(tree: JsonV) -> Option<u64> {
    match tree {
        JsonV::Int(n) => if 0 <= n <= u64::MAX {
            Some(n as u64)
        } else {
            None
        },
        _ => None,
    }
}

pub open spec fn tree_i64(tree: JsonV) -> Option<i64> {
    match tree {
        JsonV::Int(n) => if i64::MIN <= n <= i64::MAX {
            Some(n as i64)
        } else {
            None
        },
        _ => None,
    }
}

pub open spec fn tree_array(tree: JsonV) -> Option<Seq<JsonV>> {
    match tree {
        JsonV::Arr(items) => Some(items),
        _ => None,
    }
}

/// The member of a name, where the tree is an object that has it.
pub open spec fn member(tree: JsonV, key: Seq<char>) -> Option<JsonV> {
    match tree {
        JsonV::Obj(fields) => if fields.contains_key(key) {
            Some(fields[key])
        } else {
            None
        },
        _ => None,
    }
}

pub open spec fn opt_json(v: Option<&serde_json::Value>) -> Option<JsonV> {
    match v {
        Some(v) => Some(json(*v)),
        None => None,
    }
}

/// `Value::as_str`: the text of a string, and nothing of any other value.
pub assume_specification[ serde_json::Value::as_str ](v: &serde_json::Value) -> (r: Option<&str>)
    ensures
        opt_view(r) == tree_str(json(*v)),
;

/// `Value::as_bool`: the truth value of a boolean, and nothing of any other value.
pub assume_specification[ serde_json::Value::as_bool ](v: &serde_json::Value) -> (r: Option<bool>)
    ensures
        r == tree_bool(json(*v)),
;

/// `Value::as_u64`: a whole number that an unsigned word holds, and nothing of any other value.
pub assume_specification[ serde_json::Value::as_u64 ](v: &serde_json::Value) -> (r: Option<u64>)
    ensures
        r == tree_u64(json(*v)),
;

/// `Value::as_i64`: a whole number that a signed word holds, and nothing of any other value.
pub assume_specification[ serde_json::Value::as_i64 ](v: &serde_json::Value) -> (r: Option<i64>)
    ensures
        r == tree_i64(json(*v)),
;

/// `Value::as_array`: the items of an array, in order, and nothing of any other value.
pub assume_specification[ serde_json::Value::as_array ](v: &serde_json::Value) -> (r: Option<&Vec<serde_json::Value>>)
    ensures
        match r {
            Some(items) => tree_array(json(*v)) == Some(trees(items@)),
            None => tree_array(json(*v)) is None,
        },
;

/// `Value::get` with a text: the member of that name, where the value is an object that has it.
#[verifier::external_body]
pub(crate) fn field<'a>(v: &'a serde_json::Value, key: &str) -> (r: Option<&'a serde_json::Value>)
    ensures
        opt_json(r) == member(json(*v), key@),
{
    v.get(key)
}

/// `Value::clone`: a value that holds the same.
#[verifier::external_body]
pub(crate) fn copy_value(v: &serde_json::Value) -> (r: serde_json::Value)
    ensures
        json(r) == json(*v),
{
    v.clone()
}

// ------------------------------------------------------------------------------------------
// Building
// ------------------------------------------------------------------------------------------

/// `Value::from` of a text: a string.
#[verifier::external_body]
pub(crate) fn string(s: &str) -> (r: serde_json::Value)
    ensures
        json(r) == JsonV::Str(s@),
{
    serde_json::Value::from(s)
}

/// `Value::from` of a truth value: a boolean.
#[verifier::external_body]
pub(crate) fn boolean(b: bool) -> (r: serde_json::Value)
    ensures
        json(r) == JsonV::Bool(b),
{
    serde_json::Value::from(b)
}

/// `Value::from` of a signed word: that whole number.
#[verifier::external_body]
pub(crate) fn number(n: i64) -> (r: serde_json::Value)
    ensures
        json(r) == JsonV::Int(n as int),
{
    serde_json::Value::from(n)
}

/// `Value::from` of a machine word: that whole number.
#[verifier::external_body]
pub(crate) fn count(n: usize) -> (r: serde_json::Value)
    ensures
        json(r) == JsonV::Int(n as int),
{
    serde_json::Value::from(n)
}

/// `Value::from` of a vector of values: the array of them, in order.
#[verifier::external_body]
pub(crate) fn array(items: Vec<serde_json::Value>) -> (r: serde_json::Value)
    ensures
        json(r) == JsonV::Arr(trees(items@)),
{
    serde_json::Value::from(items)
}

/// `Value::from_iter` over names and values, where no name comes twice: the object with these
/// members. Which of two members of one name would stay is left unsaid, and not asked.
#[verifier::external_body]
pub(crate) fn object(fields: Vec<(String, serde_json::Value)>) -> (r: serde_json::Value)
    requires
        own_names(fields@),
    ensures
        json(r) == JsonV::Obj(members(fields@)),
{
    serde_json::Value::from_iter(fields)
}

// ------------------------------------------------------------------------------------------
// Text
// ------------------------------------------------------------------------------------------

/// `serde_json::from_str`: the value that a text spells, where it spells one and nothing more. What
/// it spells is a function of the text, and is named rather than stated.
#[verifier::external_body]
pub(crate) fn parse_text(text: &str) -> (r: Option<serde_json::Value>)
    ensures
        match r {
            Some(v) => json_text(text@) == Some(json(v)),
            None => json_text(text@) is None,
        },
{
    serde_json::from_str(text).ok()
}

/// `serde_json::from_slice`: the value that bytes spell, or what is wrong with them. Both are a
/// function of the bytes, and are named rather than stated.
#[verifier::external_body]
pub(crate) fn parse_bytes(bytes: &[u8]) -> (r: Result<serde_json::Value, String>)
    ensures
        match r {
            Ok(v) => json_bytes(bytes@) == Ok::<JsonV, Seq<char>>(json(v)),
            Err(e) => json_bytes(bytes@) == Err::<JsonV, Seq<char>>(e@),
        },
{
    serde_json::from_slice(bytes).map_err(|error| error.to_string())
}

/// `Value::to_string`: the compact text of a value. The text is a function of what the value holds,
/// and is named rather than stated. It has no line feed in it; an object's starts and ends with the
/// braces; and `serde_json::from_str` reads the same tree from it, where the tree has no fractional
/// number and nests no deeper than that function follows.
#[verifier::external_body]
pub(crate) fn print(v: &serde_json::Value) -> (r: String)
    ensures
        r@ == json_print(json(*v)),
        forall|i: int| 0 <= i < r@.len() ==> #[trigger] r@[i] != '\n',
        json(*v) is Obj ==> r@.len() >= 2 && r@[0] == '{' && r@.last() == '}',
        exact(json(*v), 127) ==> json_text(r@) == Some(json(*v)),
{
    v.to_string()
}

} // verus!
