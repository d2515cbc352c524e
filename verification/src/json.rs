//! JSON documents (`module.json`, `deploy.json`, `spec.json`), read and
//! written through `serde_json`. What `serde_json` gives for a text is named,
//! not restated: each name below is the result of one `serde_json` call on the
//! same arguments.

use vstd::prelude::*;
use crate::text::{copy_str, join_with, str_views};

verus! {

/// An optional string by its view.
pub open spec fn opt_str_view(o: Option<String>) -> Option<Seq<char>> {
    match o {
        Some(s) => Some(s@),
        None => None,
    }
}

/// Optional strings by their views.
pub open spec fn opt_strs_view(v: Seq<Option<String>>) -> Seq<Option<Seq<char>>> {
    v.map_values(|o: Option<String>| opt_str_view(o))
}

/// What `serde_json` makes of `raw` as a document: the parser's message when
/// it is not JSON; else the keys of the top-level object, or `None` when the
/// document is not an object.
pub uninterp spec fn spec_json_top_keys(raw: Seq<char>) -> Result<Option<Seq<Seq<char>>>, Seq<char>>;

/// Whether the document `raw` is `null`: `None` when `raw` is not JSON.
pub uninterp spec fn spec_json_is_null(raw: Seq<char>) -> Option<bool>;

/// The string at the JSON pointer `pointer` of the document `raw`: `None`
/// when `raw` is not JSON, `Some(None)` when nothing, or no string, is there.
pub uninterp spec fn spec_json_string_at(raw: Seq<char>, pointer: Seq<char>) -> Option<Option<Seq<char>>>;

/// The `field` strings of the entries of the array `key` of the document
/// `raw`: `None` when `raw` is not JSON, `Some(None)` when `raw[key]` is not an
/// array; an entry whose `field` is not a string gives `None`.
pub uninterp spec fn spec_json_field_strings(raw: Seq<char>, key: Seq<char>, field: Seq<char>) -> Option<Option<Seq<Option<Seq<char>>>>>;

/// The document `raw` with its field `key` set to the JSON text `value`,
/// pretty-printed; `None` when either does not parse or `raw` is not an object.
pub uninterp spec fn spec_json_with_field(raw: Seq<char>, key: Seq<char>, value: Seq<char>) -> Option<Seq<char>>;

/// The document `raw` with the JSON text `item` appended to its array `key`,
/// pretty-printed; `None` when either does not parse or there is no such array.
pub uninterp spec fn spec_json_with_pushed(raw: Seq<char>, key: Seq<char>, item: Seq<char>) -> Option<Seq<char>>;

/// The document `raw` pretty-printed; `None` when it does not parse.
pub uninterp spec fn spec_json_pretty(raw: Seq<char>) -> Option<Seq<char>>;

/// The lower-case hexadecimal digit of `n` (below 16).
pub open spec fn hex_digit(n: int) -> char {
    "0123456789abcdef"@[n]
}

/// How a character is written inside a JSON string: `"` and `\` behind a
/// backslash; backspace, tab, line feed, form feed and carriage return as
/// `\b`, `\t`, `\n`, `\f`, `\r`; the other control characters below
/// U+0020 as `\u00` and two lower-case hexadecimal digits; all others as
/// they are.
pub open spec fn json_char_escape(c: char) -> Seq<char> {
    let u = c as u32;
    if c == '"' {
        seq!['\\', '"']
    } else if c == '\\' {
        seq!['\\', '\\']
    } else if u == 0x08 {
        seq!['\\', 'b']
    } else if u == 0x09 {
        seq!['\\', 't']
    } else if u == 0x0A {
        seq!['\\', 'n']
    } else if u == 0x0C {
        seq!['\\', 'f']
    } else if u == 0x0D {
        seq!['\\', 'r']
    } else if u < 0x20 {
        seq!['\\', 'u', '0', '0', hex_digit(u as int / 16), hex_digit(u as int % 16)]
    } else {
        seq![c]
    }
}

/// The characters of `s`, each written as inside a JSON string.
pub open spec fn json_escaped(s: Seq<char>) -> Seq<char>
    decreases s.len(),
{
    if s.len() == 0 {
        Seq::empty()
    } else {
        json_escaped(s.drop_last()) + json_char_escape(s.last())
    }
}

/// The JSON string literal for `s`: quoted, with its characters escaped as
/// `serde_json` writes them.
pub open spec fn spec_json_string_literal(s: Seq<char>) -> Seq<char> {
    seq!['"'] + json_escaped(s) + seq!['"']
}

pub open spec fn top_keys_view(r: Result<Option<Vec<String>>, String>) -> Result<Option<Seq<Seq<char>>>, Seq<char>> {
    match r {
        Ok(Some(k)) => Ok(Some(str_views(k@))),
        Ok(None) => Ok(None),
        Err(e) => Err(e@),
    }
}

pub open spec fn string_at_view(r: Option<Option<String>>) -> Option<Option<Seq<char>>> {
    match r {
        Some(o) => Some(opt_str_view(o)),
        None => None,
    }
}

pub open spec fn field_strings_view(r: Option<Option<Vec<Option<String>>>>) -> Option<Option<Seq<Option<Seq<char>>>>> {
    match r {
        Some(Some(v)) => Some(Some(opt_strs_view(v@))),
        Some(None) => Some(None),
        None => None,
    }
}

/// Parses `raw` with `serde_json::from_str` into a `serde_json::Value` and
/// lists the keys of its top-level object (`Value::as_object`); a parse error
/// is given by its message (`Display` of `serde_json::Error`).
#[verifier::external_body]
pub(crate) fn json_top_keys(raw: &str) -> (r: Result<Option<Vec<String>>, String>)
    ensures
        top_keys_view(r) == spec_json_top_keys(raw@),
{
    match serde_json::from_str::<serde_json::Value>(raw) {
        Ok(v) => Ok(v.as_object().map(|o| o.keys().cloned().collect())),
        Err(e) => Err(e.to_string()),
    }
}

/// Parses `raw` with `serde_json::from_str` and tells whether it is `null`
/// (`Value::is_null`). It fails exactly when the parse does.
#[verifier::external_body]
pub(crate) fn json_is_null(raw: &str) -> (r: Option<bool>)
    ensures
        r == spec_json_is_null(raw@),
        r is None <==> spec_json_top_keys(raw@) is Err,
{
    serde_json::from_str::<serde_json::Value>(raw).ok().map(|v| v.is_null())
}

/// Parses `raw` with `serde_json::from_str` and reads the string at
/// `pointer` (`Value::pointer`, then `Value::as_str`). It fails exactly when
/// the parse does, as `json_top_keys` does.
#[verifier::external_body]
pub(crate) fn json_string_at(raw: &str, pointer: &str) -> (r: Option<Option<String>>)
    ensures
        string_at_view(r) == spec_json_string_at(raw@, pointer@),
        r is None <==> spec_json_top_keys(raw@) is Err,
{
    serde_json::from_str::<serde_json::Value>(raw).ok().map(|v| v.pointer(pointer).and_then(|x| x.as_str()).map(|s| s.to_string()))
}

/// Parses `raw` with `serde_json::from_str` and reads `raw[key]` as an array
/// (`Value::as_array`), giving each entry's `field` as a string
/// (`Value::as_str`). It fails exactly when the parse does.
#[verifier::external_body]
pub(crate) fn json_field_strings(raw: &str, key: &str, field: &str) -> (r: Option<Option<Vec<Option<String>>>>)
    ensures
        field_strings_view(r) == spec_json_field_strings(raw@, key@, field@),
        r is None <==> spec_json_top_keys(raw@) is Err,
{
    serde_json::from_str::<serde_json::Value>(raw).ok().map(
        |v| v[key].as_array().map(|a| a.iter().map(|m| m[field].as_str().map(|s| s.to_string())).collect()),
    )
}

/// Parses `raw` and `value` with `serde_json::from_str`, inserts the second
/// into the first's object under `key` (`Value::as_object_mut`, `Map::insert`)
/// and prints it with `serde_json::to_string_pretty`.
#[verifier::external_body]
pub(crate) fn json_with_field(raw: &str, key: &str, value: &str) -> (r: Option<String>)
    ensures
        opt_str_view(r) == spec_json_with_field(raw@, key@, value@),
{
    let mut doc: serde_json::Value = serde_json::from_str(raw).ok()?;
    let item: serde_json::Value = serde_json::from_str(value).ok()?;
    doc.as_object_mut()?.insert(key.to_string(), item);
    serde_json::to_string_pretty(&doc).ok()
}

/// Parses `raw` and `item` with `serde_json::from_str`, appends the second to
/// the array under `key` of the first (`Value::get_mut`,
/// `Value::as_array_mut`) and prints it with `serde_json::to_string_pretty`.
#[verifier::external_body]
pub(crate) fn json_with_pushed(raw: &str, key: &str, item: &str) -> (r: Option<String>)
    ensures
        opt_str_view(r) == spec_json_with_pushed(raw@, key@, item@),
{
    let mut doc: serde_json::Value = serde_json::from_str(raw).ok()?;
    let entry: serde_json::Value = serde_json::from_str(item).ok()?;
    doc.get_mut(key)?.as_array_mut()?.push(entry);
    serde_json::to_string_pretty(&doc).ok()
}

/// Parses `raw` with `serde_json::from_str` and prints it with
/// `serde_json::to_string_pretty`.
#[verifier::external_body]
pub(crate) fn json_pretty(raw: &str) -> (r: Option<String>)
    ensures
        opt_str_view(r) == spec_json_pretty(raw@),
{
    let doc: serde_json::Value = serde_json::from_str(raw).ok()?;
    serde_json::to_string_pretty(&doc).ok()
}

/// The text of `serde_json::Value::String(s)` (its compact `Display`):
/// the string quoted, escaped by `serde_json`'s escape table.
#[verifier::external_body]
pub(crate) fn json_string_literal(s: &str) -> (r: String)
    ensures
        r@ == spec_json_string_literal(s@),
{
    serde_json::Value::String(s.to_string()).to_string()
}

/// The JSON array whose entries are the JSON texts `items`.
pub open spec fn array_text(items: Seq<Seq<char>>) -> Seq<char> {
    "["@ + join_with(items, ","@) + "]"@
}

/// The JSON text of a boolean.
pub open spec fn bool_text(b: bool) -> Seq<char> {
    if b {
        "true"@
    } else {
        "false"@
    }
}

/// The JSON text of a boolean.
pub fn bool_json(b: bool) -> (r: &'static str)
    ensures
        r@ == bool_text(b),
{
    if b {
        "true"
    } else {
        "false"
    }
}

/// The JSON array of the JSON texts `items`.
pub fn json_array(items: &Vec<String>) -> (r: String)
    ensures
        r@ == array_text(str_views(items@)),
{
    let ghost sv = str_views(items@);
    let mut out = copy_str("[");
    let mut i: usize = 0;
    while i < items.len()
        invariant
            i <= items.len(),
            sv == str_views(items@),
            out@ == "["@ + join_with(sv.subrange(0, i as int), ","@),
        decreases items.len() - i,
    {
        let ghost prev = out@;
        let ghost pre = sv.subrange(0, i as int);
        let ghost next = sv.subrange(0, i + 1);
        assert(next.drop_last() =~= pre);
        assert(next.last() == items@[i as int]@);
        if i > 0 {
            out.append(",");
        }
        out.append(items[i].as_str());
        if i == 0 {
            assert(next.len() == 1);
            assert(join_with(next, ","@) == next[0]);
            assert(join_with(pre, ","@) == Seq::<char>::empty());
            assert(out@ =~= "["@ + join_with(next, ","@));
        } else {
            assert(join_with(next, ","@) == join_with(pre, ","@) + ","@ + next.last());
            assert(out@ =~= "["@ + join_with(next, ","@));
        }
        i = i + 1;
    }
    assert(sv.subrange(0, sv.len() as int) =~= sv);
    out.append("]");
    out
}

} // verus!
