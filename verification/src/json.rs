//! JSON values carried by filters and bound parameters.

use vstd::prelude::*;
use crate::text::{decimal, push_u64, push_i64, signed_decimal, push_str, string_of};

verus! {

/// A JSON value as the query layer carries it.
///
/// Scalars are held directly. Arrays and objects, which the query layer only
/// ever passes through, are held as their serialized JSON text. Numbers are
/// integers: a value is read as `i64` when it fits and as `u64` otherwise.
#[derive(Clone, Debug, PartialEq, Eq)]
pub enum JsonValue {
    /// `null`.
    Null,
    /// `true` or `false`.
    Bool(bool),
    /// An integer that fits in `i64`.
    Int(i64),
    /// An integer above `i64::MAX`.
    UInt(u64),
    /// A string.
    Str(String),
    /// An array or object, as its serialized JSON text.
    Composite(String),
}

impl JsonValue {
    /// A copy of the value.
    pub fn duplicate(&self) -> (r: JsonValue)
        ensures
            r == *self,
    {
        match self {
            JsonValue::Null => JsonValue::Null,
            JsonValue::Bool(b) => JsonValue::Bool(*b),
            JsonValue::Int(i) => JsonValue::Int(*i),
            JsonValue::UInt(u) => JsonValue::UInt(*u),
            JsonValue::Str(s) => JsonValue::Str(s.clone()),
            JsonValue::Composite(t) => JsonValue::Composite(t.clone()),
        }
    }
}

/// The hex digit of `n` (below 16), lower case.
pub open spec fn hex_digit(n: int) -> char {
    if n < 10 {
        (('0' as int) + n) as char
    } else {
        (('a' as int) + n - 10) as char
    }
}

/// How `serde_json` writes one character inside a JSON string: `"` and `\`
/// behind a backslash; backspace, form feed, line feed, carriage return and
/// tab as `\b`, `\f`, `\n`, `\r`, `\t`; every other character below U+0020
/// as `\u00` and two lower-case hex digits; every other character as it is.
pub open spec fn json_escape_char(c: char) -> Seq<char> {
    if c == '"' {
        seq!['\\', '"']
    } else if c == '\\' {
        seq!['\\', '\\']
    } else if c == '\u{8}' {
        seq!['\\', 'b']
    } else if c == '\u{c}' {
        seq!['\\', 'f']
    } else if c == '\n' {
        seq!['\\', 'n']
    } else if c == '\r' {
        seq!['\\', 'r']
    } else if c == '\t' {
        seq!['\\', 't']
    } else if (c as u32) < 0x20 {
        seq!['\\', 'u', '0', '0', hex_digit((c as int) / 16), hex_digit((c as int) % 16)]
    } else {
        seq![c]
    }
}

/// The characters of `s`, each written as `json_escape_char` says.
pub open spec fn json_escaped(s: Seq<char>) -> Seq<char>
    decreases s.len(),
{
    if s.len() == 0 {
        Seq::empty()
    } else {
        json_escaped(s.drop_last()) + json_escape_char(s.last())
    }
}

/// What `serde_json` produces when it serializes the string `s`: the string in
/// double quotes, its characters escaped (see `json_escape_char`).
pub open spec fn json_string_text(s: Seq<char>) -> Seq<char> {
    seq!['"'] + json_escaped(s) + seq!['"']
}

/// Serializes `s` as a JSON string literal.
///
/// Calls `serde_json::to_string` on the string, which writes it in double
/// quotes with the escapes of serde_json's escape table (`json_escape_char`).
/// Serializing a `&str` cannot fail.
#[verifier::external_body]
fn json_quote(s: &str) -> (r: String)
    ensures
        r@ == json_string_text(s@),
{
    serde_json::to_string(s).unwrap_or_default()
}

/// The JSON text of a value, as `serde_json::Value`'s `Display` writes it.
pub open spec fn json_text(v: JsonValue) -> Seq<char> {
    match v {
        JsonValue::Null => "null"@,
        JsonValue::Bool(b) => if b { "true"@ } else { "false"@ },
        JsonValue::Int(i) => signed_decimal(i as int),
        JsonValue::UInt(u) => decimal(u as nat),
        JsonValue::Str(s) => json_string_text(s@),
        JsonValue::Composite(text) => text@,
    }
}

/// Appends the JSON text of `v`.
pub fn push_json_text(out: &mut Vec<char>, v: &JsonValue)
    ensures
        final(out)@ == old(out)@ + json_text(*v),
{
    match v {
        JsonValue::Null => push_str(out, "null"),
        JsonValue::Bool(b) => {
            if *b {
                push_str(out, "true")
            } else {
                push_str(out, "false")
            }
        },
        JsonValue::Int(i) => push_i64(out, *i),
        JsonValue::UInt(u) => push_u64(out, *u),
        JsonValue::Str(s) => {
            let q = json_quote(s.as_str());
            push_str(out, q.as_str());
        },
        JsonValue::Composite(text) => push_str(out, text.as_str()),
    }
}

/// The JSON text of `v`.
pub fn to_json_text(v: &JsonValue) -> (s: String)
    ensures
        s@ == json_text(*v),
{
    let mut out: Vec<char> = Vec::new();
    push_json_text(&mut out, v);
    string_of(&out)
}

impl JsonValue {
    /// Whether this is JSON `null`.
    pub fn is_null(&self) -> (b: bool)
        ensures
            b == (*self is Null),
    {
        match self {
            JsonValue::Null => true,
            _ => false,
        }
    }
}

/// What `format!("{:?}", s)` produces for the string `s`: the string in
/// double quotes with Rust's debug escapes applied.
pub uninterp spec fn str_debug(s: Seq<char>) -> Seq<char>;

/// Formats `s` with `str`'s `Debug` implementation; the contract claims only
/// that the result is a function of the string's characters (named
/// `str_debug`).
#[verifier::external_body]
pub(crate) fn debug_quoted(s: &str) -> (r: String)
    ensures
        r@ == str_debug(s@),
{
    format!("{:?}", s)
}

/// What `serde_json` produces when it parses `text` as a JSON value and
/// formats the value with `Debug` (`Array [..]`, `Object {..}`).
pub uninterp spec fn json_debug_text(text: Seq<char>) -> Seq<char>;

/// Parses `text` with `serde_json::from_str` and formats the value with
/// `serde_json::Value`'s `Debug`; text that does not parse is returned as it
/// is. The contract claims only that the result is a function of the text
/// (named `json_debug_text`).
#[verifier::external_body]
fn composite_debug(text: &str) -> (r: String)
    ensures
        r@ == json_debug_text(text@),
{
    match serde_json::from_str::<serde_json::Value>(text) {
        Ok(v) => format!("{:?}", v),
        Err(_) => text.to_string(),
    }
}

/// The `Debug` text of a value as `serde_json::Value` writes it:
/// `Null`, `Bool(true)`, `Number(1)`, `String("a")`, and for arrays and
/// objects the parsed value's text.
pub open spec fn json_debug(v: JsonValue) -> Seq<char> {
    match v {
        JsonValue::Null => "Null"@,
        JsonValue::Bool(b) => "Bool("@ + (if b { "true"@ } else { "false"@ }) + ")"@,
        JsonValue::Int(i) => "Number("@ + signed_decimal(i as int) + ")"@,
        JsonValue::UInt(u) => "Number("@ + decimal(u as nat) + ")"@,
        JsonValue::Str(s) => "String("@ + str_debug(s@) + ")"@,
        JsonValue::Composite(text) => json_debug_text(text@),
    }
}

/// Appends the `Debug` text of `v` (see `json_debug`).
pub fn push_json_debug(out: &mut Vec<char>, v: &JsonValue)
    ensures
        final(out)@ == old(out)@ + json_debug(*v),
{
    match v {
        JsonValue::Null => push_str(out, "Null"),
        JsonValue::Bool(b) => {
            push_str(out, "Bool(");
            if *b {
                push_str(out, "true");
            } else {
                push_str(out, "false");
            }
            push_str(out, ")");
        },
        JsonValue::Int(i) => {
            push_str(out, "Number(");
            push_i64(out, *i);
            push_str(out, ")");
        },
        JsonValue::UInt(u) => {
            push_str(out, "Number(");
            push_u64(out, *u);
            push_str(out, ")");
        },
        JsonValue::Str(s) => {
            push_str(out, "String(");
            let q = debug_quoted(s.as_str());
            push_str(out, q.as_str());
            push_str(out, ")");
        },
        JsonValue::Composite(text) => {
            let d = composite_debug(text.as_str());
            push_str(out, d.as_str());
        },
    }
}

} // verus!
