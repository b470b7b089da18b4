//! Turning a decoded bencode value into JSON, with byte strings read as
//! (lossy) UTF-8 text.

use vstd::prelude::*;
use vstd::utf8::{decode_utf8, valid_utf8};

verus! {

/// A decoded bencode value.
#[derive(Debug)]
pub enum BencodeValue {
    Int(i64),
    Bytes(Vec<u8>),
    List(Vec<BencodeValue>),
    Dict(Vec<(Vec<u8>, BencodeValue)>),
}

/// A JSON value; an object lists its members in the order they were built.
#[derive(Debug)]
pub enum JsonValue {
    Number(i64),
    String(String),
    Array(Vec<JsonValue>),
    Object(Vec<(String, JsonValue)>),
}

/// The text that `String::from_utf8_lossy` makes of a byte sequence.
pub uninterp spec fn utf8_lossy(bytes: Seq<u8>) -> Seq<char>;

/// Calls `String::from_utf8_lossy` and takes the text it gives as a `String`.
/// Trusted: the text is `utf8_lossy` of the bytes, and for valid UTF-8 it is
/// the decoded text (as the function's documentation says: invalid
/// sequences, and only they, are replaced).
#[verifier::external_body]
fn lossy_text(bytes: &[u8]) -> (s: String)
    ensures
        s@ == utf8_lossy(bytes@),
        valid_utf8(bytes@) ==> s@ == decode_utf8(bytes@),
{
    String::from_utf8_lossy(bytes).into_owned()
}

/// Whether `j` is the JSON form of `b`: integers stay numbers, byte
/// strings become lossy UTF-8 text, lists become arrays and dictionaries
/// objects with the same entries in the same order.
pub open spec fn json_form(b: BencodeValue, j: JsonValue) -> bool
    decreases b,
{
    match b {
        BencodeValue::Int(n) => j matches JsonValue::Number(m) && m == n,
        BencodeValue::Bytes(bs) => j matches JsonValue::String(s) && s@ == utf8_lossy(bs@),
        BencodeValue::List(xs) => j matches JsonValue::Array(ys) && ys@.len() == xs@.len() && forall|i: int|
            0 <= i < xs@.len() ==> json_form(#[trigger] xs@[i], ys@[i]),
        BencodeValue::Dict(kvs) => j matches JsonValue::Object(ps) && ps@.len() == kvs@.len()
            && forall|i: int|
            0 <= i < kvs@.len() ==> ps@[i].0@ == utf8_lossy(kvs@[i].0@) && json_form(
                #[trigger] kvs@[i].1,
                ps@[i].1,
            ),
    }
}

/// A bencode integer's JSON form is a JSON number with the same value, for
/// every `i64`, and nothing else.
pub proof fn lemma_int_json_form(n: i64, j: JsonValue)
    ensures
        json_form(BencodeValue::Int(n), j) <==> j == JsonValue::Number(n),
        json_form(BencodeValue::Int(n), JsonValue::Number(n)),
{
}

/// A list's JSON form is an array with as many elements as the list, and a
/// dictionary's an object with as many members as it has entries.
pub proof fn lemma_json_form_lengths(b: BencodeValue, j: JsonValue)
    requires
        json_form(b, j),
    ensures
        b matches BencodeValue::List(xs) ==> (j matches JsonValue::Array(ys) && ys@.len() == xs@.len()),
        b matches BencodeValue::Dict(kvs) ==> (j matches JsonValue::Object(ps) && ps@.len() == kvs@.len()),
        b is Int ==> j is Number,
        b is Bytes ==> j is String,
{
}

/// The JSON form of a bencode value, with byte strings read as lossy UTF-8.
pub fn bencode_strings(val: &BencodeValue) -> (r: JsonValue)
    ensures
        json_form(*val, r),
    decreases val,
{
    match val {
        BencodeValue::Int(n) => JsonValue::Number(*n),
        BencodeValue::Bytes(bytes) => JsonValue::String(lossy_text(bytes.as_slice())),
        BencodeValue::List(vals) => {
            let mut out: Vec<JsonValue> = Vec::new();
            let mut i: usize = 0;
            assert forall|k: int| 0 <= k < vals@.len() implies decreases_to!(*val => vals@[k]) by {}
            while i < vals.len()
                invariant
                    i <= vals@.len(),
                    *val == BencodeValue::List(*vals),
                    forall|k: int| 0 <= k < vals@.len() ==> decreases_to!(*val => vals@[k]),
                    out@.len() == i,
                    forall|k: int| 0 <= k < i ==> json_form(#[trigger] vals@[k], out@[k]),
                decreases vals@.len() - i,
            {
                let j = bencode_strings(&vals[i]);
                out.push(j);
                i = i + 1;
            }
            JsonValue::Array(out)
        },
        BencodeValue::Dict(vals) => {
            let mut out: Vec<(String, JsonValue)> = Vec::new();
            let mut i: usize = 0;
            assert forall|k: int| 0 <= k < vals@.len() implies decreases_to!(*val => vals@[k].1) by {}
            while i < vals.len()
                invariant
                    i <= vals@.len(),
                    *val == BencodeValue::Dict(*vals),
                    forall|k: int| 0 <= k < vals@.len() ==> decreases_to!(*val => vals@[k].1),
                    out@.len() == i,
                    forall|k: int|
                        0 <= k < i ==> out@[k].0@ == utf8_lossy(vals@[k].0@) && json_form(
                            #[trigger] vals@[k].1,
                            out@[k].1,
                        ),
                decreases vals@.len() - i,
            {
                let key = lossy_text(vals[i].0.as_slice());
                let j = bencode_strings(&vals[i].1);
                out.push((key, j));
                i = i + 1;
            }
            JsonValue::Object(out)
        },
    }
}

/// A bencode value as mathematics: a dictionary is a map from its keys,
/// its entries in no order.
pub enum BencodeModel {
    Int(i64),
    Bytes(Seq<u8>),
    List(Seq<BencodeModel>),
    Dict(Map<Seq<u8>, BencodeModel>),
}

/// What `serde_bencode` reads from `text` as a `serde_bencode::value::Value`
/// (a dictionary is a hash map, so its entries have no order): `None` when
/// it does not read it.
pub uninterp spec fn bencode_parsed(text: Seq<char>) -> Option<BencodeModel>;

/// Whether `b` is the value `m` with its dictionaries' entries in some
/// order: integers and byte strings are equal, lists hold such values in
/// the same order, and a dictionary lists each key of the map exactly
/// once, with such a value.
pub open spec fn models(b: BencodeValue, m: BencodeModel) -> bool
    decreases b,
{
    match b {
        BencodeValue::Int(n) => m == BencodeModel::Int(n),
        BencodeValue::Bytes(bs) => m == BencodeModel::Bytes(bs@),
        BencodeValue::List(xs) => m matches BencodeModel::List(ms) && ms.len() == xs@.len() && forall|i: int|
            0 <= i < xs@.len() ==> models(#[trigger] xs@[i], ms[i]),
        BencodeValue::Dict(kvs) => m matches BencodeModel::Dict(mm) && (forall|i: int, j: int|
            0 <= i < j < kvs@.len() ==> #[trigger] kvs@[i].0@ != #[trigger] kvs@[j].0@) && (forall|
            k: Seq<u8>,
        |
            #[trigger] mm.dom().contains(k) ==> exists|i: int|
                0 <= i < kvs@.len() && #[trigger] kvs@[i].0@ == k) && forall|i: int|
            0 <= i < kvs@.len() ==> mm.dom().contains(kvs@[i].0@) && models(
                #[trigger] kvs@[i].1,
                mm[kvs@[i].0@],
            ),
    }
}

/// The text `serde_json::to_string_pretty` makes of a JSON value, its
/// objects' members sorted by key (a later member with the same key
/// replacing an earlier one).
pub uninterp spec fn pretty_json(j: JsonValue) -> Seq<char>;

#[verifier::external_type_specification]
#[verifier::external_body]
pub struct ExDecodedBencode(serde_bencode::value::Value);

#[verifier::external_type_specification]
#[verifier::external_body]
pub struct ExJsonTree(serde_json::Value);

/// Turns a value decoded by `serde_bencode` into a [`BencodeValue`], one
/// node for one node. A dictionary's entries come in the order its hash
/// map is walked, which the map does not fix: nothing is stated of the result.
#[verifier::external_body]
fn bencode_from_decoded(v: &serde_bencode::value::Value) -> BencodeValue {
    match v {
        serde_bencode::value::Value::Int(n) => BencodeValue::Int(*n),
        serde_bencode::value::Value::Bytes(b) => BencodeValue::Bytes(b.clone()),
        serde_bencode::value::Value::List(vs) => BencodeValue::List(vs.iter().map(bencode_from_decoded).collect()),
        serde_bencode::value::Value::Dict(m) => BencodeValue::Dict(
            m.iter().map(|(k, x)| (k.clone(), bencode_from_decoded(x))).collect(),
        ),
    }
}

/// Turns a [`JsonValue`] into a `serde_json::Value`, one node for one node;
/// an object's members are collected into a `serde_json::Map`.
#[verifier::external_body]
fn json_to_tree(j: &JsonValue) -> serde_json::Value {
    match j {
        JsonValue::Number(n) => serde_json::Value::Number((*n).into()),
        JsonValue::String(s) => serde_json::Value::String(s.clone()),
        JsonValue::Array(vs) => serde_json::Value::Array(vs.iter().map(json_to_tree).collect()),
        JsonValue::Object(ms) => serde_json::Value::Object(
            ms.iter().map(|(k, x)| (k.clone(), json_to_tree(x))).collect::<serde_json::Map<String, serde_json::Value>>(),
        ),
    }
}

/// Calls `serde_bencode::from_str` to decode `text` as a
/// `serde_bencode::value::Value`. Trusted: the result is `None` exactly
/// when `bencode_parsed` is, and otherwise that value, its dictionaries'
/// entries in the order their hash maps are walked (which is left open).
#[verifier::external_body]
fn parse_bencode(text: &str) -> (r: Option<BencodeValue>)
    ensures
        r is None <==> bencode_parsed(text@) is None,
        r matches Some(b) ==> models(b, bencode_parsed(text@)->0),
{
    match serde_bencode::from_str::<serde_bencode::value::Value>(text) {
        Ok(v) => Some(bencode_from_decoded(&v)),
        Err(_) => None,
    }
}

/// Calls `serde_json::to_string_pretty` on a JSON value. Trusted: the
/// text is `pretty_json` of the value (serializing a JSON value whose keys
/// are strings does not fail).
#[verifier::external_body]
fn pretty_text(j: &JsonValue) -> (r: String)
    ensures
        r@ == pretty_json(*j),
{
    serde_json::to_string_pretty(&json_to_tree(j)).unwrap()
}

/// Decodes bencode text into JSON: `None` when the text is not bencode,
/// else the JSON form of the decoded value, its dictionaries' entries in
/// the order they were decoded in.
pub fn decode_to_json(text: &str) -> (r: Option<JsonValue>)
    ensures
        r is None <==> bencode_parsed(text@) is None,
        r matches Some(j) ==> exists|b: BencodeValue|
            models(b, bencode_parsed(text@)->0) && json_form(b, j),
{
    match parse_bencode(text) {
        Some(b) => {
            let j = bencode_strings(&b);
            Some(j)
        },
        None => None,
    }
}

/// Decodes bencode text and prints it as pretty JSON: `None` when the
/// text is not bencode, else the pretty text of the JSON form of the
/// decoded value.
pub fn decode_to_text(text: &str) -> (r: Option<String>)
    ensures
        r is None <==> bencode_parsed(text@) is None,
        r matches Some(s) ==> exists|b: BencodeValue, j: JsonValue|
            models(b, bencode_parsed(text@)->0) && json_form(b, j) && s@ == pretty_json(j),
{
    match decode_to_json(text) {
        Some(j) => {
            let s = pretty_text(&j);
            Some(s)
        },
        None => None,
    }
}

} // verus!
