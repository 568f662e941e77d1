//! What the library asks of JSON: a text or a number read out of a
//! document, and flat objects of a few entries written as one.

use serde_json::Value;
use vstd::prelude::*;

verus! {

/// The text that a JSON document holds under `key` at its top level, if
/// the document is JSON and holds a text there.
pub uninterp spec fn json_text_field(document: Seq<char>, key: Seq<char>) -> Option<Seq<char>>;

/// The whole number that a JSON document holds under `key` at its top
/// level, if the document is JSON and holds a whole number from zero up to
/// the largest of 64 bits there.
pub uninterp spec fn json_number_field(document: Seq<char>, key: Seq<char>) -> Option<u64>;

/// The pretty-printed JSON object of three text entries, each a name and
/// a text.
pub uninterp spec fn json_pretty_object(
    name1: Seq<char>,
    text1: Seq<char>,
    name2: Seq<char>,
    text2: Seq<char>,
    name3: Seq<char>,
    text3: Seq<char>,
) -> Option<Seq<char>>;

/// The JSON object, on one line, of three text entries.
pub uninterp spec fn json_line_of_texts(
    name1: Seq<char>,
    text1: Seq<char>,
    name2: Seq<char>,
    text2: Seq<char>,
    name3: Seq<char>,
    text3: Seq<char>,
) -> Option<Seq<char>>;

/// The JSON object, on one line, of three text entries and two number
/// entries.
pub uninterp spec fn json_line_with_numbers(
    name1: Seq<char>,
    text1: Seq<char>,
    name2: Seq<char>,
    text2: Seq<char>,
    name3: Seq<char>,
    text3: Seq<char>,
    name4: Seq<char>,
    number4: u64,
    name5: Seq<char>,
    number5: u64,
) -> Option<Seq<char>>;

/// Calls `serde_json::from_str` for a `Value`, then `Value::get` and
/// `Value::as_str`: the text under `key`, or `None` where the document is
/// no JSON, has no such entry, or holds something other than a text there.
/// What comes back depends on the document and the key alone.
#[verifier::external_body]
pub(crate) fn text_field(document: &str, key: &str) -> (value: Option<String>)
    ensures
        value is Some <==> json_text_field(document@, key@) is Some,
        value is Some ==> value->0@ == json_text_field(document@, key@)->0,
{
    match serde_json::from_str::<Value>(document) {
        Ok(parsed) => match parsed.get(key) {
            Some(field) => match field.as_str() {
                Some(text) => Some(text.to_owned()),
                None => None,
            },
            None => None,
        },
        Err(_) => None,
    }
}

/// Calls `serde_json::from_str` for a `Value`, then `Value::get` and
/// `Value::as_u64`: the number under `key`, or `None` where the document
/// is no JSON, has no such entry, or holds something other than such a
/// number there. What comes back depends on the document and the key
/// alone.
#[verifier::external_body]
pub(crate) fn number_field(document: &str, key: &str) -> (value: Option<u64>)
    ensures
        value == json_number_field(document@, key@),
{
    match serde_json::from_str::<Value>(document) {
        Ok(parsed) => match parsed.get(key) {
            Some(field) => field.as_u64(),
            None => None,
        },
        Err(_) => None,
    }
}

/// Calls `serde_json::to_string_pretty` on an object with the three
/// entries given. What comes back depends on the entries alone.
#[verifier::external_body]
pub(crate) fn pretty_object(a: (&str, &str), b: (&str, &str), c: (&str, &str)) -> (document:
    Option<String>)
    ensures
        document is Some <==> json_pretty_object(a.0@, a.1@, b.0@, b.1@, c.0@, c.1@) is Some,
        document is Some ==> document->0@ == json_pretty_object(
            a.0@,
            a.1@,
            b.0@,
            b.1@,
            c.0@,
            c.1@,
        )->0,
{
    let entries = serde_json::Map::from_iter(
        [
            (a.0.to_owned(), Value::from(a.1)),
            (b.0.to_owned(), Value::from(b.1)),
            (c.0.to_owned(), Value::from(c.1)),
        ],
    );
    serde_json::to_string_pretty(&Value::Object(entries)).ok()
}

/// Calls `serde_json::to_string` on an object with the three entries
/// given. What comes back depends on the entries alone.
#[verifier::external_body]
pub(crate) fn line_of_texts(a: (&str, &str), b: (&str, &str), c: (&str, &str)) -> (line: Option<
    String,
>)
    ensures
        line is Some <==> json_line_of_texts(a.0@, a.1@, b.0@, b.1@, c.0@, c.1@) is Some,
        line is Some ==> line->0@ == json_line_of_texts(a.0@, a.1@, b.0@, b.1@, c.0@, c.1@)->0,
{
    let entries = serde_json::Map::from_iter(
        [
            (a.0.to_owned(), Value::from(a.1)),
            (b.0.to_owned(), Value::from(b.1)),
            (c.0.to_owned(), Value::from(c.1)),
        ],
    );
    serde_json::to_string(&Value::Object(entries)).ok()
}

/// Calls `serde_json::to_string` on an object with the three text entries
/// and the two number entries given. What comes back depends on the
/// entries alone.
#[verifier::external_body]
pub(crate) fn line_with_numbers(
    a: (&str, &str),
    b: (&str, &str),
    c: (&str, &str),
    d: (&str, u64),
    e: (&str, u64),
) -> (line: Option<String>)
    ensures
        line is Some <==> json_line_with_numbers(
            a.0@,
            a.1@,
            b.0@,
            b.1@,
            c.0@,
            c.1@,
            d.0@,
            d.1,
            e.0@,
            e.1,
        ) is Some,
        line is Some ==> line->0@ == json_line_with_numbers(
            a.0@,
            a.1@,
            b.0@,
            b.1@,
            c.0@,
            c.1@,
            d.0@,
            d.1,
            e.0@,
            e.1,
        )->0,
{
    let entries = serde_json::Map::from_iter(
        [
            (a.0.to_owned(), Value::from(a.1)),
            (b.0.to_owned(), Value::from(b.1)),
            (c.0.to_owned(), Value::from(c.1)),
            (d.0.to_owned(), Value::from(d.1)),
            (e.0.to_owned(), Value::from(e.1)),
        ],
    );
    serde_json::to_string(&Value::Object(entries)).ok()
}

} // verus!
