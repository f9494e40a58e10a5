//! Reading and writing the documents that the room service exchanges.
//!
//! A document is kept as the parser built it. What the gateway wants of one
//! it asks for by name: a member of an object, the text of a string, the
//! items of an array.
//!
//! The parser does not return on every text. A text is therefore scanned
//! before it is handed over, and refused where the parser would not return.

use vstd::prelude::*;
use vstd::string::StringExecFns;
use rustc_serialize::json::{Json, ParserError};
use std::collections::BTreeMap;
use crate::matrix::scan::parse_admits;

verus! {

/// A document, as `rustc_serialize` holds it.
#[verifier::external_type_specification]
#[verifier::external_body]
pub struct ExJson(Json);

/// Why a text is no document, as `rustc_serialize` says it.
#[verifier::external_type_specification]
#[verifier::external_body]
pub struct ExParserError(ParserError);

/// The document that `text` spells, if it spells one.
pub uninterp spec fn spec_parse(text: Seq<char>) -> Option<Json>;

/// The member `key` of `json`, if `json` is an object that has one.
pub uninterp spec fn spec_find(json: Json, key: Seq<char>) -> Option<Json>;

/// The text of `json`, if `json` is a string.
pub uninterp spec fn spec_as_string(json: Json) -> Option<Seq<char>>;

/// The items of `json`, if `json` is an array.
pub uninterp spec fn spec_as_array(json: Json) -> Option<Seq<Json>>;

/// The text of the object that has each of `strings` as a member that is a
/// string, and each of `lists` as a member that is an array of strings, as
/// `rustc_serialize` writes it. Each member is a key and a value. Of two
/// members with the same key the later one counts, and every list counts as
/// later than every string.
pub uninterp spec fn spec_write_object(
    strings: Seq<(Seq<char>, Seq<char>)>,
    lists: Seq<(Seq<char>, Seq<Seq<char>>)>,
) -> Seq<char>;

/// `Json::to_string` of a `Json::Object` that holds each of `strings` as a
/// `Json::String` and each of `lists` as a `Json::Array` of `Json::String`:
/// writes the object out.
#[verifier::external_body]
pub(crate) fn write_object(
    strings: &Vec<(String, String)>,
    lists: &Vec<(String, Vec<String>)>,
) -> (r: String)
    ensures
        r@ == spec_write_object(strings.deep_view(), lists.deep_view()),
{
    let mut object = BTreeMap::new();
    for (key, value) in strings {
        object.insert(key.clone(), Json::String(value.clone()));
    }
    for (key, items) in lists {
        let array = items.iter().map(|item| Json::String(item.clone())).collect();
        object.insert(key.clone(), Json::Array(array));
    }
    Json::Object(object).to_string()
}

/// `Json::from_str`: reads `text` as a document. The same text always gives
/// the same document, or none. The texts that the scan refuses are left out:
/// on some of them the parser does not return.
#[verifier::external_body]
pub(crate) fn parse(text: &str) -> (r: Result<Json, ParserError>)
    requires
        parse_admits(text@),
    ensures
        match r {
            Ok(json) => spec_parse(text@) == Some(json),
            Err(_) => spec_parse(text@) is None,
        },
{
    Json::from_str(text)
}

/// `Json::find`: the member `key` of `json`.
#[verifier::external_body]
pub(crate) fn find<'a>(json: &'a Json, key: &str) -> (r: Option<&'a Json>)
    ensures
        match r {
            Some(member) => spec_find(*json, key@) == Some(*member),
            None => spec_find(*json, key@) is None,
        },
{
    json.find(key)
}

/// `Json::as_string`: the text of `json`.
#[verifier::external_body]
pub(crate) fn as_string<'a>(json: &'a Json) -> (r: Option<&'a str>)
    ensures
        match r {
            Some(text) => spec_as_string(*json) == Some(text@),
            None => spec_as_string(*json) is None,
        },
{
    json.as_string()
}

/// `Json::as_array`: the items of `json`.
#[verifier::external_body]
pub(crate) fn as_array<'a>(json: &'a Json) -> (r: Option<&'a Vec<Json>>)
    ensures
        match r {
            Some(items) => spec_as_array(*json) == Some(items@),
            None => spec_as_array(*json) is None,
        },
{
    json.as_array()
}

/// The text of the member `key` of `json`, if there is such a member and it
/// is a string.
pub open spec fn spec_string(json: Json, key: Seq<char>) -> Option<Seq<char>> {
    match spec_find(json, key) {
        Some(member) => spec_as_string(member),
        None => None,
    }
}

/// The items of the member `key` of `json`; none at all if there is no such
/// member or it is no array.
pub open spec fn spec_array(json: Json, key: Seq<char>) -> Seq<Json> {
    match spec_find(json, key) {
        Some(member) => match spec_as_array(member) {
            Some(items) => items,
            None => Seq::empty(),
        },
        None => Seq::empty(),
    }
}

/// The text of the member `key` of `json`.
pub fn string(json: &Json, key: &str) -> (r: Option<String>)
    ensures
        r.deep_view() == spec_string(*json, key@),
{
    match find(json, key) {
        Some(member) => match as_string(member) {
            Some(text) => Some(String::from_str(text)),
            None => None,
        },
        None => None,
    }
}

/// The items of the member `key` of `json`.
pub fn array<'a>(json: &'a Json, key: &str) -> (r: &'a [Json])
    ensures
        r@ == spec_array(*json, key@),
{
    match find(json, key) {
        Some(member) => match as_array(member) {
            Some(items) => items.as_slice(),
            None => &[],
        },
        None => &[],
    }
}

} // verus!
