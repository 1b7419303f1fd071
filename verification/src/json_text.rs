//! JSON text the library writes: string literals as `serde_json` escapes
//! them, compact objects of members, and JSON the app supplied in its
//! compact rendering.

use vstd::prelude::*;
use crate::base64::hex_digit;
use crate::failure::{lossy_utf8, utf8_lossy};
use crate::query::views;
use crate::text::{concat, decimal, decimal_seq, push_char};

verus! {

/// How `serde_json` writes one character inside a JSON string: `"` and `\`
/// escaped, the short escapes for backspace, tab, line feed, form feed and
/// carriage return, `\u00xx` (lowercase hex) for the other control
/// characters, and every other character as it is.
pub open spec fn json_char(c: char) -> Seq<char> {
    if c == '"' {
        seq!['\\', '"']
    } else if c == '\\' {
        seq!['\\', '\\']
    } else if c == '\u{8}' {
        seq!['\\', 'b']
    } else if c == '\t' {
        seq!['\\', 't']
    } else if c == '\n' {
        seq!['\\', 'n']
    } else if c == '\u{c}' {
        seq!['\\', 'f']
    } else if c == '\r' {
        seq!['\\', 'r']
    } else if (c as u32) < 0x20 {
        seq!['\\', 'u', '0', '0', hex_digit((c as u32 / 16) as nat), hex_digit((c as u32 % 16) as nat)]
    } else {
        seq![c]
    }
}

/// The escaped characters of a JSON string's content.
pub open spec fn json_escaped(s: Seq<char>) -> Seq<char>
    decreases s.len(),
{
    if s.len() == 0 {
        Seq::empty()
    } else {
        json_escaped(s.drop_last()) + json_char(s.last())
    }
}

/// A text as a JSON string literal.
pub open spec fn json_string(s: Seq<char>) -> Seq<char> {
    seq!['"'] + json_escaped(s) + seq!['"']
}

/// `serde_json::to_string` of a `&str`: the text as a JSON string literal.
/// Serializing a string into memory does not fail.
#[verifier::external_body]
pub(crate) fn quoted(text: &str) -> (s: String)
    ensures
        s@ == json_string(text@),
{
    serde_json::to_string(text).unwrap_or_default()
}

/// What `serde_json` reads from a text as a `Value` and writes back
/// compactly (object members ordered by key); none when the text is not
/// JSON.
pub uninterp spec fn json_reformatted(text: Seq<char>) -> Option<Seq<char>>;

/// `serde_json::from_str::<serde_json::Value>` then `to_string`: the text's
/// JSON value in compact form, none when it does not parse.
#[verifier::external_body]
pub(crate) fn reformat_json(text: &str) -> (r: Option<String>)
    ensures
        crate::text::opt_view(r) == json_reformatted(text@),
{
    serde_json::from_str::<serde_json::Value>(text).ok().map(|v| v.to_string())
}

/// What `serde_json` reads from bytes as a `Value` and writes back
/// compactly (object members ordered by key); none when the bytes are not
/// JSON.
pub uninterp spec fn json_slice_reformatted(bytes: Seq<u8>) -> Option<Seq<char>>;

/// `serde_json::from_slice::<serde_json::Value>` then `to_string`: the
/// bytes' JSON value in compact form, none when they do not parse.
#[verifier::external_body]
fn reformat_json_slice(value: &[u8]) -> (r: Option<String>)
    ensures
        crate::text::opt_view(r) == json_slice_reformatted(value@),
{
    serde_json::from_slice::<serde_json::Value>(value).ok().map(|v| v.to_string())
}

/// A stored value as JSON text: the document itself if it is JSON, else its
/// lossy text as a JSON string.
pub fn value_json(value: &[u8]) -> (s: String)
    ensures
        s@ == value_json_of(value@),
{
    match reformat_json_slice(value) {
        Some(t) => t,
        None => quoted(utf8_lossy(value).as_str()),
    }
}

/// The message `serde_json` gives for a text it cannot read as JSON.
pub uninterp spec fn json_error_text(text: Seq<char>) -> Seq<char>;

/// `serde_json::from_str::<serde_json::Value>`'s error, rendered: why the
/// text is not JSON (empty when it is).
#[verifier::external_body]
pub(crate) fn json_error(text: &str) -> (s: String)
    ensures
        s@ == json_error_text(text@),
{
    serde_json::from_str::<serde_json::Value>(text).err().map(|e| e.to_string()).unwrap_or_default()
}

/// One member of a compact JSON object.
pub open spec fn json_member(key: Seq<char>, value: Seq<char>) -> Seq<char> {
    json_string(key) + seq![':'] + value
}

/// `parts` joined with `,`.
pub open spec fn comma_joined(parts: Seq<Seq<char>>) -> Seq<char>
    decreases parts.len(),
{
    if parts.len() == 0 {
        Seq::empty()
    } else if parts.len() == 1 {
        parts[0]
    } else {
        comma_joined(parts.drop_last()) + seq![','] + parts.last()
    }
}

/// A compact JSON object of members.
pub open spec fn json_object(members: Seq<Seq<char>>) -> Seq<char> {
    seq!['{'] + comma_joined(members) + seq!['}']
}

/// A compact JSON array of items.
pub open spec fn json_array(items: Seq<Seq<char>>) -> Seq<char> {
    seq!['['] + comma_joined(items) + seq![']']
}

/// `parts` joined with `,` between `open` and `close`.
fn enclosed(open: char, close: char, parts: &Vec<String>) -> (r: String)
    ensures
        r@ == seq![open] + comma_joined(views(parts@)) + seq![close],
{
    let mut r = String::new();
    push_char(&mut r, open);
    let mut i: usize = 0;
    while i < parts.len()
        invariant
            i <= parts.len(),
            r@ == seq![open] + comma_joined(views(parts@).take(i as int)),
        decreases parts.len() - i,
    {
        let ghost before = views(parts@).take(i as int);
        assert(views(parts@).take(i + 1).drop_last() =~= before);
        if i > 0 {
            push_char(&mut r, ',');
        }
        let next = concat(r.as_str(), parts[i].as_str());
        r = next;
        i += 1;
        proof {
            let now = views(parts@).take(i as int);
            if i == 1 {
                assert(before =~= Seq::<Seq<char>>::empty());
                assert(comma_joined(now) == now[0]);
                assert(r@ =~= seq![open] + comma_joined(now));
            } else {
                assert(r@ =~= seq![open] + comma_joined(now));
            }
        }
    }
    assert(views(parts@).take(parts@.len() as int) =~= views(parts@));
    push_char(&mut r, close);
    r
}

/// Write a compact JSON object of members.
pub(crate) fn object_text(members: &Vec<String>) -> (r: String)
    ensures
        r@ == json_object(views(members@)),
{
    enclosed('{', '}', members)
}

/// Write a compact JSON array of items.
pub(crate) fn array_text(items: &Vec<String>) -> (r: String)
    ensures
        r@ == json_array(views(items@)),
{
    enclosed('[', ']', items)
}

/// Texts as JSON strings.
pub open spec fn json_strings(items: Seq<String>) -> Seq<Seq<char>> {
    items.map_values(|t: String| json_string(t@))
}

/// Write an array of JSON strings.
pub(crate) fn strings_text(items: &Vec<String>) -> (r: String)
    ensures
        r@ == json_array(json_strings(items@)),
{
    let mut quoted_items: Vec<String> = Vec::new();
    let mut i: usize = 0;
    while i < items.len()
        invariant
            i <= items.len(),
            views(quoted_items@) == json_strings(items@.take(i as int)),
        decreases items.len() - i,
    {
        let ghost before = views(quoted_items@);
        let q = quoted(items[i].as_str());
        quoted_items.push(q);
        assert(views(quoted_items@) =~= before.push(q@));
        assert(items@.take(i + 1) =~= items@.take(i as int).push(items@[i as int]));
        i += 1;
        assert(views(quoted_items@) =~= json_strings(items@.take(i as int)));
    }
    assert(items@.take(items@.len() as int) =~= items@);
    array_text(&quoted_items)
}

/// A JSON number of an integer.
pub open spec fn json_int(n: int) -> Seq<char> {
    if n < 0 {
        seq!['-'] + decimal_seq((-n) as nat)
    } else {
        decimal_seq(n as nat)
    }
}

/// Write a JSON number of an `i32`.
pub(crate) fn int_text(n: i32) -> (r: String)
    ensures
        r@ == json_int(n as int),
{
    if n < 0 {
        let magnitude: u64 = (-(n as i64)) as u64;
        let digits = decimal(magnitude);
        let mut r = String::new();
        push_char(&mut r, '-');
        concat(r.as_str(), digits.as_str())
    } else {
        decimal(n as u64)
    }
}

/// A JSON boolean.
pub open spec fn json_bool(b: bool) -> Seq<char> {
    if b {
        "true"@
    } else {
        "false"@
    }
}

/// Write a JSON boolean.
pub(crate) fn bool_text(b: bool) -> (r: String)
    ensures
        r@ == json_bool(b),
{
    proof {
        reveal_strlit("");
        reveal_strlit("true");
        reveal_strlit("false");
    }
    if b {
        let r = concat("true", "");
        assert(r@ =~= "true"@);
        r
    } else {
        let r = concat("false", "");
        assert(r@ =~= "false"@);
        r
    }
}

/// Write a member of a compact JSON object.
pub(crate) fn member_text(key: &str, value: &str) -> (r: String)
    ensures
        r@ == json_member(key@, value@),
{
    let head = concat(quoted(key).as_str(), ":");
    proof {
        reveal_strlit(":");
    }
    concat(head.as_str(), value)
}

/// A JSON number of an unsigned integer.
pub(crate) fn uint_text(n: u32) -> (r: String)
    ensures
        r@ == json_int(n as int),
{
    decimal(n as u64)
}

/// A member present only when its rendered value is.
pub open spec fn opt_member(key: Seq<char>, value: Option<Seq<char>>) -> Seq<Seq<char>> {
    match value {
        Some(v) => seq![json_member(key, v)],
        None => Seq::empty(),
    }
}

/// An optional text rendered as a JSON string.
pub open spec fn opt_string_json(value: Option<String>) -> Option<Seq<char>> {
    match value {
        Some(v) => Some(json_string(v@)),
        None => None,
    }
}

/// Append a member to the members written so far.
pub(crate) fn push_member(members: &mut Vec<String>, key: &str, value: &str)
    ensures
        views(final(members)@) == views(old(members)@).push(json_member(key@, value@)),
{
    let m = member_text(key, value);
    members.push(m);
    assert(views(members@) =~= views(old(members)@).push(json_member(key@, value@)));
}

/// Append a member when its rendered value is present.
pub(crate) fn push_opt_member(members: &mut Vec<String>, key: &str, value: Option<String>)
    ensures
        views(final(members)@) == views(old(members)@) + opt_member(key@, crate::text::opt_view(value)),
{
    match value {
        Some(v) => push_member(members, key, v.as_str()),
        None => {},
    }
    assert(views(members@) =~= views(old(members)@) + opt_member(key@, crate::text::opt_view(value)));
}

/// An optional text as a JSON string, written.
pub(crate) fn opt_quoted(value: &Option<String>) -> (r: Option<String>)
    ensures
        crate::text::opt_view(r) == opt_string_json(*value),
{
    match value {
        Some(v) => Some(quoted(v.as_str())),
        None => None,
    }
}

/// The JSON text of a stored value (see [`value_json`]).
pub open spec fn value_json_of(value: Seq<u8>) -> Seq<char> {
    match json_slice_reformatted(value) {
        Some(t) => t,
        None => json_string(lossy_utf8(value)),
    }
}

} // verus!
