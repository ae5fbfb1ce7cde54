//! The JSON reader and writer that listings, releases and alias documents go through.
use vstd::prelude::*;

use crate::text::opt_view;

verus! {

/// serde_json's parsed JSON value, carried through unopened.
#[verifier::external_type_specification]
#[verifier::external_body]
pub struct ExJsonValue(serde_json::Value);

/// serde_json's parse error; only its presence is looked at.
#[verifier::external_type_specification]
#[verifier::external_body]
pub struct ExJsonError(serde_json::Error);

/// A lower-case hexadecimal digit.
pub open spec fn hex_digit(n: u32) -> char {
    seq!['0', '1', '2', '3', '4', '5', '6', '7', '8', '9', 'a', 'b', 'c', 'd', 'e', 'f'][n as int]
}

/// How serde_json writes one character inside a string literal: quote and backslash escaped,
/// the usual control characters by letter, the other control characters as `\u00XX`, and every
/// other character as itself.
pub open spec fn escape_char(c: char) -> Seq<char> {
    if c == '"' {
        seq!['\\', '"']
    } else if c == '\\' {
        seq!['\\', '\\']
    } else if c == '\u{8}' {
        seq!['\\', 'b']
    } else if c == '\t' {
        seq!['\\', 't']
    } else if c == '\n' {
        seq!['\\', 'n']
    } else if c == '\u{c}' {
        seq!['\\', 'f']
    } else if c == '\r' {
        seq!['\\', 'r']
    } else if (c as u32) < 0x20 {
        seq!['\\', 'u', '0', '0', hex_digit((c as u32) / 16), hex_digit((c as u32) % 16)]
    } else {
        seq![c]
    }
}

/// The characters of `s`, each escaped.
pub open spec fn escaped(s: Seq<char>) -> Seq<char>
    decreases s.len(),
{
    if s.len() == 0 {
        Seq::empty()
    } else {
        escaped(s.drop_last()) + escape_char(s.last())
    }
}

/// The JSON string literal that serde_json writes for `s`: quoted, with its escapes.
pub open spec fn json_string_literal(s: Seq<char>) -> Seq<char> {
    seq!['"'] + escaped(s) + seq!['"']
}

/// Whether serde_json reads `text` as one JSON value.
pub uninterp spec fn parses_as_json(text: Seq<char>) -> bool;

/// The members of the JSON object that serde_json reads from `text`, in the order its map keeps
/// them, each value's text where the value is a string; `None` when `text` is not one JSON
/// object.
pub uninterp spec fn json_object_strings(text: Seq<char>) -> Option<
    Seq<(Seq<char>, Option<Seq<char>>)>,
>;

/// For the JSON array at `pointer` in the value that serde_json reads from `text`: for each
/// element, in order, the strings under the keys `first` and `second` (`None` where the element
/// has no string there); `None` when `text` is not JSON or holds no array at `pointer`.
pub uninterp spec fn json_array_string_pairs(
    text: Seq<char>,
    pointer: Seq<char>,
    first: Seq<char>,
    second: Seq<char>,
) -> Option<Seq<(Option<Seq<char>>, Option<Seq<char>>)>>;

/// The texts of object members.
pub open spec fn member_views(v: Seq<(String, Option<String>)>) -> Seq<
    (Seq<char>, Option<Seq<char>>),
> {
    v.map_values(|m: (String, Option<String>)| (m.0@, opt_view(m.1)))
}

/// The texts of pairs of optional strings.
pub open spec fn pair_views(v: Seq<(Option<String>, Option<String>)>) -> Seq<
    (Option<Seq<char>>, Option<Seq<char>>),
> {
    v.map_values(|p: (Option<String>, Option<String>)| (opt_view(p.0), opt_view(p.1)))
}

/// Relies on serde_json::from_str at the type `Value`: parses a whole JSON text, or fails; which
/// of the two depends on the text alone.
#[verifier::external_body]
pub(crate) fn parse_json(text: &str) -> (r: Result<serde_json::Value, serde_json::Error>)
    ensures
        r is Ok == parses_as_json(text@),
{
    serde_json::from_str(text)
}

/// Relies on serde_json::from_str at the type `Value`, then `Value::as_object`, `Map::iter` and
/// `Value::as_str`: the members of a JSON object, each key once (the map holds no key twice);
/// `{}` reads as an object without members.
#[verifier::external_body]
pub(crate) fn parse_object(text: &str) -> (r: Option<Vec<(String, Option<String>)>>)
    ensures
        r is None <==> json_object_strings(text@) is None,
        r matches Some(v) ==> json_object_strings(text@) == Some(member_views(v@)),
        r matches Some(v) ==> forall|i: int, j: int|
            0 <= i < j < v@.len() ==> #[trigger] v@[i].0@ != #[trigger] v@[j].0@,
        r is None ==> text@ != "{}"@,
        r matches Some(v) ==> (text@ == "{}"@ ==> v@.len() == 0),
{
    let value: serde_json::Value = serde_json::from_str(text).ok()?;
    let map = value.as_object()?;
    let mut out = Vec::new();
    for (key, member) in map {
        out.push((key.clone(), member.as_str().map(str::to_string)));
    }
    Some(out)
}

/// Relies on serde_json::from_str at the type `Value`, then `Value::pointer`, `Value::as_array`,
/// `Value::get` and `Value::as_str`: for each element of the array at `pointer`, the strings
/// under `first` and `second`.
#[verifier::external_body]
pub(crate) fn parse_array_string_pairs(
    text: &str,
    pointer: &str,
    first: &str,
    second: &str,
) -> (r: Option<Vec<(Option<String>, Option<String>)>>)
    ensures
        r is None <==> json_array_string_pairs(text@, pointer@, first@, second@) is None,
        r matches Some(v) ==> json_array_string_pairs(text@, pointer@, first@, second@) == Some(
            pair_views(v@),
        ),
{
    let value: serde_json::Value = serde_json::from_str(text).ok()?;
    let items = value.pointer(pointer)?.as_array()?;
    let mut out = Vec::new();
    for item in items {
        let a = item.get(first).and_then(serde_json::Value::as_str).map(str::to_string);
        let b = item.get(second).and_then(serde_json::Value::as_str).map(str::to_string);
        out.push((a, b));
    }
    Some(out)
}

/// Relies on serde_json's `Display` for a string `Value`: its JSON literal, in compact form,
/// escaped by serde_json's `ESCAPE` table and `write_char_escape`.
#[verifier::external_body]
pub(crate) fn quote_json(s: &str) -> (r: String)
    ensures
        r@ == json_string_literal(s@),
{
    serde_json::Value::String(s.to_string()).to_string()
}

} // verus!
