//! JSON documents, read by serde_json. What the library reads of a document is looked up
//! by JSON pointer (`/key/key`, with `~1` for a `/` inside a key) on the document's bytes,
//! so that every result is a function of the bytes and the pointer.

use vstd::prelude::*;
use vstd::utf8::encode_utf8;

verus! {

/// Whether serde_json accepts the bytes as one JSON document.
pub uninterp spec fn json_accepts(bytes: Seq<u8>) -> bool;

/// Relies on `serde_json::from_slice::<Value>`: it succeeds exactly on the byte sequences
/// that hold one JSON document.
#[verifier::external_body]
pub(crate) fn json_is_document(bytes: &[u8]) -> (r: bool)
    ensures
        r == json_accepts(bytes@),
{
    serde_json::from_slice::<serde_json::Value>(bytes).is_ok()
}

/// Whether the document `doc` has a value at `pointer`.
pub uninterp spec fn json_present_at(doc: Seq<u8>, pointer: Seq<char>) -> bool;

/// Relies on `serde_json::from_slice::<Value>` and `Value::pointer`: whether the bytes are
/// a document with a value (of any kind, `null` included) at the pointer.
#[verifier::external_body]
pub(crate) fn json_present(doc: &[u8], pointer: &str) -> (r: bool)
    ensures
        r == json_present_at(doc@, pointer@),
{
    match serde_json::from_slice::<serde_json::Value>(doc) {
        Ok(v) => v.pointer(pointer).is_some(),
        Err(_) => false,
    }
}

/// Whether the value at `pointer` in the document `doc` is `null`.
pub uninterp spec fn json_null_at(doc: Seq<u8>, pointer: Seq<char>) -> bool;

/// Relies on `serde_json::from_slice::<Value>` and `Value::pointer`: whether the bytes are
/// a document whose value at the pointer is `null`.
#[verifier::external_body]
pub(crate) fn json_null(doc: &[u8], pointer: &str) -> (r: bool)
    ensures
        r == json_null_at(doc@, pointer@),
{
    match serde_json::from_slice::<serde_json::Value>(doc) {
        Ok(v) => matches!(v.pointer(pointer), Some(serde_json::Value::Null)),
        Err(_) => false,
    }
}

/// The string at `pointer` in the document `doc`, if the value there is a string.
pub uninterp spec fn json_text_at(doc: Seq<u8>, pointer: Seq<char>) -> Option<Seq<char>>;

/// Relies on `serde_json::from_slice::<Value>` and `Value::pointer`: the string value at
/// the pointer, none if the bytes are no document or the value there is missing or not a string.
#[verifier::external_body]
pub(crate) fn json_text(doc: &[u8], pointer: &str) -> (r: Option<String>)
    ensures
        match r {
            Some(t) => json_text_at(doc@, pointer@) == Some(t@),
            None => json_text_at(doc@, pointer@) is None,
        },
{
    match serde_json::from_slice::<serde_json::Value>(doc) {
        Ok(v) => match v.pointer(pointer) {
            Some(serde_json::Value::String(t)) => Some(t.clone()),
            _ => None,
        },
        Err(_) => None,
    }
}

/// The integer at `pointer` in the document `doc`, if the value there is a number that
/// fits in an `i64`.
pub uninterp spec fn json_int_at(doc: Seq<u8>, pointer: Seq<char>) -> Option<i64>;

/// Relies on `serde_json::from_slice::<Value>`, `Value::pointer` and `Value::as_i64`: the
/// value at the pointer as an `i64`, none if it is missing or no such number.
#[verifier::external_body]
pub(crate) fn json_int(doc: &[u8], pointer: &str) -> (r: Option<i64>)
    ensures
        r == json_int_at(doc@, pointer@),
{
    match serde_json::from_slice::<serde_json::Value>(doc) {
        Ok(v) => match v.pointer(pointer) {
            Some(x) => x.as_i64(),
            None => None,
        },
        Err(_) => None,
    }
}

/// The lower-case hexadecimal digit for a value below sixteen.
pub open spec fn lower_hex(d: u32) -> char {
    if d < 10 {
        ((0x30 + d) as u8) as char
    } else {
        ((0x61 + d - 10) as u8) as char
    }
}

/// How serde_json writes one character inside a string literal: `"` and `\` after a
/// backslash, the five short escapes for backspace, tab, line feed, form feed and carriage
/// return, any other character below U+0020 as `\u00` and two lower-case hexadecimal
/// digits, and every other character as it is.
pub open spec fn json_escape_char(c: char) -> Seq<char> {
    let u = c as u32;
    if c == '"' {
        seq!['\\', '"']
    } else if c == '\\' {
        seq!['\\', '\\']
    } else if u == 0x8 {
        seq!['\\', 'b']
    } else if u == 0x9 {
        seq!['\\', 't']
    } else if u == 0xa {
        seq!['\\', 'n']
    } else if u == 0xc {
        seq!['\\', 'f']
    } else if u == 0xd {
        seq!['\\', 'r']
    } else if u < 0x20 {
        seq!['\\', 'u', '0', '0', lower_hex(u / 16), lower_hex(u % 16)]
    } else {
        seq![c]
    }
}

/// The characters of a text as serde_json escapes them.
pub open spec fn json_escaped(s: Seq<char>) -> Seq<char>
    decreases s.len(),
{
    if s.len() == 0 {
        Seq::empty()
    } else {
        json_escape_char(s[0]) + json_escaped(s.drop_first())
    }
}

/// The JSON string literal that serde_json writes for a text.
pub open spec fn json_quoted(s: Seq<char>) -> Seq<char> {
    seq!['"'] + json_escaped(s) + seq!['"']
}

/// Relies on `serde_json::to_string` on a `str`: the text between quotes, escaped by the
/// table of `format_escaped_str_contents`. Serialising a `str` into memory does not fail.
#[verifier::external_body]
pub(crate) fn quote_json(s: &str) -> (r: String)
    ensures
        r@ == json_quoted(s@),
{
    serde_json::to_string(s).unwrap_or_default()
}

/// Whether `s` is one JSON document.
pub fn is_json(s: &str) -> (r: bool)
    ensures
        r == json_accepts(encode_utf8(s@)),
{
    json_is_document(s.as_bytes())
}

} // verus!
