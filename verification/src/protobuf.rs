//! The `google.protobuf.*Value` wrapper messages (each a single field with
//! tag 1) and the packing of protojson-style typed values —
//! `{"@type": "type.googleapis.com/google.protobuf.Int64Value", "value": "100"}` —
//! which the Dapr docs use for typed conversation parameters.

use vstd::prelude::*;
use vstd::utf8::encode_utf8;
use crate::failure::{Error, ErrorKind};
use crate::text::{bytes_of, chars_of, concat, ends_with, has_suffix, same_text, string_from_range};
use crate::failure::{lossy_utf8, utf8_lossy};

verus! {

/// LEB128: seven bits per byte, least significant first, the high bit set
/// on every byte but the last.
pub open spec fn varint(v: nat) -> Seq<u8>
    decreases v,
{
    if v < 128 {
        seq![v as u8]
    } else {
        seq![((v % 128) + 128) as u8] + varint(v / 128)
    }
}

/// The largest field number protobuf allows.
pub const MAX_TAG: u32 = 536870911;

/// The wire types the wrapper messages use.
#[derive(PartialEq, Eq, Structural, Clone, Copy, Debug)]
pub enum WireKind {
    Varint,
    LengthDelimited,
}

/// The number of a wire type on the wire.
pub open spec fn wire_number(kind: WireKind) -> nat {
    match kind {
        WireKind::Varint => 0,
        WireKind::LengthDelimited => 2,
    }
}

/// `prost::encoding::encode_varint`: appends `value` in LEB128.
#[verifier::external_body]
fn push_varint(buf: &mut Vec<u8>, value: u64)
    ensures
        final(buf)@ == old(buf)@ + varint(value as nat),
{
    prost::encoding::encode_varint(value, buf);
}

/// `prost::encoding::encode_key`: appends the field key, the varint of
/// `tag << 3 | wire type`.
#[verifier::external_body]
fn push_key(buf: &mut Vec<u8>, tag: u32, kind: WireKind)
    requires
        1 <= tag <= MAX_TAG,
    ensures
        final(buf)@ == old(buf)@ + varint(tag as nat * 8 + wire_number(kind)),
{
    let wire_type = match kind {
        WireKind::Varint => prost::encoding::WireType::Varint,
        WireKind::LengthDelimited => prost::encoding::WireType::LengthDelimited,
    };
    prost::encoding::encode_key(tag, wire_type, buf);
}

/// Field 1 as a varint; proto3 leaves a default (zero) value out.
pub open spec fn varint_field(v: nat) -> Seq<u8> {
    if v == 0 {
        Seq::empty()
    } else {
        seq![8u8] + varint(v)
    }
}

/// Field 1 as length-delimited bytes; proto3 leaves empty bytes out.
pub open spec fn bytes_field(b: Seq<u8>) -> Seq<u8> {
    if b.len() == 0 {
        Seq::empty()
    } else {
        seq![10u8] + varint(b.len()) + b
    }
}

fn encode_varint_field(v: u64) -> (b: Vec<u8>)
    ensures
        b@ == varint_field(v as nat),
{
    let mut b: Vec<u8> = Vec::new();
    if v != 0 {
        push_key(&mut b, 1, WireKind::Varint);
        assert(varint(8) =~= seq![8u8]);
        push_varint(&mut b, v);
    }
    assert(b@ =~= varint_field(v as nat));
    b
}

fn encode_bytes_field(data: &[u8]) -> (b: Vec<u8>)
    requires
        data@.len() <= u64::MAX,
    ensures
        b@ == bytes_field(data@),
{
    let mut b: Vec<u8> = Vec::new();
    if data.len() != 0 {
        push_key(&mut b, 1, WireKind::LengthDelimited);
        assert(varint(10) =~= seq![10u8]);
        push_varint(&mut b, data.len() as u64);
        let ghost head = b@;
        let mut i: usize = 0;
        while i < data.len()
            invariant
                i <= data@.len(),
                b@ == head + data@.take(i as int),
            decreases data.len() - i,
        {
            b.push(data[i]);
            i += 1;
            assert(b@ =~= head + data@.take(i as int));
        }
        assert(data@.take(data@.len() as int) =~= data@);
    }
    assert(b@ =~= bytes_field(data@));
    b
}

/// `google.protobuf.Int64Value`.
#[derive(PartialEq, Eq, Debug)]
pub struct Int64Value {
    pub value: i64,
}

/// `google.protobuf.UInt64Value`.
#[derive(PartialEq, Eq, Debug)]
pub struct UInt64Value {
    pub value: u64,
}

/// `google.protobuf.Int32Value`.
#[derive(PartialEq, Eq, Debug)]
pub struct Int32Value {
    pub value: i32,
}

/// `google.protobuf.UInt32Value`.
#[derive(PartialEq, Eq, Debug)]
pub struct UInt32Value {
    pub value: u32,
}

/// `google.protobuf.BoolValue`.
#[derive(PartialEq, Eq, Debug)]
pub struct BoolValue {
    pub value: bool,
}

/// `google.protobuf.StringValue`.
#[derive(PartialEq, Eq, Debug)]
pub struct StringValue {
    pub value: String,
}

/// `google.protobuf.BytesValue`.
#[derive(PartialEq, Eq, Debug)]
pub struct BytesValue {
    pub value: Vec<u8>,
}

impl Int64Value {
    /// The message's wire bytes: a negative value is its 64-bit two's complement.
    pub fn encode_to_vec(&self) -> (b: Vec<u8>)
        ensures
            b@ == varint_field((self.value as u64) as nat),
    {
        encode_varint_field(self.value as u64)
    }
}

impl UInt64Value {
    /// The message's wire bytes.
    pub fn encode_to_vec(&self) -> (b: Vec<u8>)
        ensures
            b@ == varint_field(self.value as nat),
    {
        encode_varint_field(self.value)
    }
}

impl Int32Value {
    /// The message's wire bytes: a negative value is sign-extended to 64 bits.
    pub fn encode_to_vec(&self) -> (b: Vec<u8>)
        ensures
            b@ == varint_field((self.value as u64) as nat),
    {
        encode_varint_field(self.value as u64)
    }
}

impl UInt32Value {
    /// The message's wire bytes.
    pub fn encode_to_vec(&self) -> (b: Vec<u8>)
        ensures
            b@ == varint_field(self.value as nat),
    {
        encode_varint_field(self.value as u64)
    }
}

impl BoolValue {
    /// The message's wire bytes: `08 01` for true, nothing for false.
    pub fn encode_to_vec(&self) -> (b: Vec<u8>)
        ensures
            b@ == varint_field(if self.value { 1nat } else { 0nat }),
    {
        encode_varint_field(if self.value { 1 } else { 0 })
    }
}

impl StringValue {
    /// The message's wire bytes: the UTF-8 text, length-delimited.
    pub fn encode_to_vec(&self) -> (b: Vec<u8>)
        requires
            encode_utf8(self.value@).len() <= u64::MAX,
        ensures
            b@ == bytes_field(encode_utf8(self.value@)),
    {
        let bytes = bytes_of(self.value.as_str());
        encode_bytes_field(bytes.as_slice())
    }
}

impl BytesValue {
    /// The message's wire bytes: the bytes, length-delimited.
    pub fn encode_to_vec(&self) -> (b: Vec<u8>)
        requires
            self.value@.len() <= u64::MAX,
        ensures
            b@ == bytes_field(self.value@),
    {
        encode_bytes_field(self.value.as_slice())
    }
}

// ---------------------------------------------------------------------------
// Integer text

/// The value of a string of decimal digits.
pub open spec fn digits_value(s: Seq<char>) -> nat
    decreases s.len(),
{
    if s.len() == 0 {
        0
    } else {
        digits_value(s.drop_last()) * 10 + ((s.last() as int) - 48) as nat
    }
}

/// Every character is an ASCII digit.
pub open spec fn all_digits(s: Seq<char>) -> bool {
    forall|i: int| 0 <= i < s.len() ==> '0' <= #[trigger] s[i] <= '9'
}

/// What `str::parse` gives for an integer type with range `min..=max`
/// (`signed` when the type is): an optional `+` (or `-` for a signed type),
/// then at least one ASCII digit, and a value in range.
pub open spec fn parsed_integer(s: Seq<char>, min: int, max: int, signed: bool) -> Option<int> {
    let negative = s.len() > 0 && s[0] == '-' && signed;
    let digits = if s.len() > 0 && (s[0] == '+' || negative) {
        s.drop_first()
    } else {
        s
    };
    let v: int = if negative {
        -digits_value(digits)
    } else {
        digits_value(digits) as int
    };
    if digits.len() > 0 && all_digits(digits) && min <= v <= max {
        Some(v)
    } else {
        None
    }
}

proof fn lemma_digits_value_grows(s: Seq<char>, k: int)
    requires
        0 <= k <= s.len(),
        all_digits(s),
    ensures
        digits_value(s.take(k)) <= digits_value(s),
    decreases s.len(),
{
    if k < s.len() {
        assert(s.drop_last().take(k) =~= s.take(k));
        lemma_digits_value_grows(s.drop_last(), k);
    } else {
        assert(s.take(k) =~= s);
    }
}

/// Parse an integer as `str::parse` does for a type with range `min..=max`.
pub(crate) fn parse_integer(text: &str, min: i128, max: i128, signed: bool) -> (r: Option<i128>)
    requires
        -0x10000000000000000 <= min <= 0,
        0 <= max <= 0x10000000000000000,
    ensures
        match r {
            Some(v) => parsed_integer(text@, min as int, max as int, signed) == Some(v as int),
            None => parsed_integer(text@, min as int, max as int, signed) is None,
        },
{
    let cs = chars_of(text);
    let negative = cs.len() > 0 && cs[0] == '-' && signed;
    let start: usize = if cs.len() > 0 && (cs[0] == '+' || negative) {
        1
    } else {
        0
    };
    let ghost digits = if cs@.len() > 0 && (cs@[0] == '+' || negative) {
        cs@.drop_first()
    } else {
        cs@
    };
    assert(digits =~= cs@.subrange(start as int, cs@.len() as int));
    if start == cs.len() {
        return None;
    }
    let mut mag: u128 = 0;
    let mut i: usize = start;
    while i < cs.len()
        invariant
            start <= i <= cs@.len(),
            digits == cs@.subrange(start as int, cs@.len() as int),
            cs@ == text@,
            negative == (text@.len() > 0 && text@[0] == '-' && signed),
            digits == (if text@.len() > 0 && (text@[0] == '+' || negative) {
                text@.drop_first()
            } else {
                text@
            }),
            -0x10000000000000000 <= min <= 0,
            0 <= max <= 0x10000000000000000,
            all_digits(digits.take(i - start)),
            mag == digits_value(digits.take(i - start)),
            mag <= 0x10000000000000000,
        decreases cs.len() - i,
    {
        let c = cs[i];
        if !('0' <= c && c <= '9') {
            assert(digits[i - start] == c);
            return None;
        }
        assert(digits.take(i - start + 1).drop_last() =~= digits.take(i - start));
        assert(digits.take(i - start + 1).last() == c);
        let d = (c as u32 - 48) as u128;
        mag = mag * 10 + d;
        i += 1;
        assert(all_digits(digits.take(i - start))) by {
            assert forall|j: int| 0 <= j < digits.take(i - start).len() implies '0' <= #[trigger] digits.take(
                i - start,
            )[j] <= '9' by {
                if j < i - start - 1 {
                    assert(digits.take(i - start)[j] == digits.take(i - start - 1)[j]);
                }
            }
        }
        if mag > 0x10000000000000000 {
            // Out of range for every type: more digits only make it larger.
            proof {
                let rest_ok = all_digits(digits);
                if rest_ok {
                    lemma_digits_value_grows(digits, i - start);
                }
            }
            return None;
        }
    }
    assert(digits.take(i - start) =~= digits);
    let v: i128 = if negative {
        -(mag as i128)
    } else {
        mag as i128
    };
    if min <= v && v <= max {
        Some(v)
    } else {
        None
    }
}

// ---------------------------------------------------------------------------
// Packing protojson typed values

/// The text after the last `/` of `s` (all of it when it has none).
pub open spec fn last_piece(s: Seq<char>) -> Seq<char>
    decreases s.len(),
{
    if s.len() == 0 || s.last() == '/' {
        Seq::empty()
    } else {
        last_piece(s.drop_last()).push(s.last())
    }
}

fn last_piece_of(s: &str) -> (r: String)
    ensures
        r@ == last_piece(s@),
{
    let cs = chars_of(s);
    let mut n: usize = cs.len();
    assert(cs@.take(n as int) =~= cs@);
    assert(cs@.subrange(n as int, cs@.len() as int) =~= Seq::<char>::empty());
    while n > 0 && cs[n - 1] != '/'
        invariant
            n <= cs@.len(),
            cs@ == s@,
            last_piece(s@) == last_piece(cs@.take(n as int)) + cs@.subrange(n as int, cs@.len() as int),
        decreases n,
    {
        assert(cs@.take(n as int).drop_last() =~= cs@.take(n - 1));
        assert(cs@.subrange(n - 1, cs@.len() as int) =~= seq![cs@[n - 1]] + cs@.subrange(
            n as int,
            cs@.len() as int,
        ));
        n -= 1;
    }
    string_from_range(&cs, n, cs.len())
}

/// A payload that the caller encodes itself: a floating-point wrapper or a
/// whole `google.protobuf.Value`.
#[derive(PartialEq, Eq, Structural, Clone, Copy, Debug)]
pub enum FloatingKind {
    DoubleValue,
    FloatValue,
    Value,
}

/// The bytes of a packed typed value, or the kind of payload the caller
/// still has to encode.
#[derive(PartialEq, Eq, Debug)]
pub enum Packing {
    Encoded(Vec<u8>),
    Floating(FloatingKind),
}

/// An integer wrapper: its range and whether it is signed.
pub open spec fn int_range(suffix: Seq<char>) -> Option<(int, int, bool)> {
    if suffix == "google.protobuf.Int64Value"@ {
        Some((-0x8000000000000000, 0x7fffffffffffffff, true))
    } else if suffix == "google.protobuf.UInt64Value"@ {
        Some((0, 0xffffffffffffffff, false))
    } else if suffix == "google.protobuf.Int32Value"@ {
        Some((-0x80000000, 0x7fffffff, true))
    } else if suffix == "google.protobuf.UInt32Value"@ {
        Some((0, 0xffffffff, false))
    } else {
        None
    }
}

/// The integer a typed value holds: a JSON string is parsed as it is, any
/// other JSON value by its rendering.
pub open spec fn integer_of(suffix: Seq<char>, text: Option<Seq<char>>, rendered: Seq<char>) -> Option<int> {
    let (min, max, signed) = int_range(suffix)->0;
    match text {
        Some(t) => parsed_integer(t, min, max, signed),
        None => parsed_integer(rendered, min, max, signed),
    }
}

/// What packing a protojson typed value gives: the type URL and the
/// wrapper bytes (or the floating-point kind the caller encodes), or the
/// error for a value or `@type` that cannot be encoded.
pub open spec fn packing_of(type_url: Seq<char>, text: Option<Seq<char>>, rendered: Seq<char>) -> Result<Option<Seq<u8>>, Seq<char>> {
    let suffix = last_piece(type_url);
    if suffix == "google.protobuf.DoubleValue"@ || suffix == "google.protobuf.FloatValue"@
        || suffix == "google.protobuf.Value"@ {
        Ok(None)
    } else if int_range(suffix) is Some {
        match integer_of(suffix, text, rendered) {
            Some(v) => Ok(Some(varint_field((v as u64) as nat))),
            None => Err("@type "@ + suffix + ": invalid value "@ + rendered),
        }
    } else if suffix == "google.protobuf.BoolValue"@ {
        if text is None && rendered == "true"@ {
            Ok(Some(varint_field(1)))
        } else if text is None && rendered == "false"@ {
            Ok(Some(varint_field(0)))
        } else {
            Err("@type "@ + suffix + ": invalid value"@)
        }
    } else if suffix == "google.protobuf.StringValue"@ {
        match text {
            Some(t) => Ok(Some(bytes_field(encode_utf8(t)))),
            None => Err("@type "@ + suffix + ": invalid value"@),
        }
    } else {
        Err("@type "@ + suffix + " is not supported here"@)
    }
}

/// Pack a protojson-style typed value. `type_field` is the object's `@type`
/// member when it is a JSON string; `value_text` its `value` member when
/// that is a JSON string, and `value_rendered` the compact rendering of the
/// `value` member (`null` when absent). Returns `None` when there is no
/// `@type` (the caller packs the object as plain JSON instead).
pub fn pack_protojson_wrapper(
    type_field: Option<String>,
    value_text: Option<String>,
    value_rendered: String,
) -> (r: Option<Result<(String, Packing), Error>>)
    requires
        value_text matches Some(t) ==> encode_utf8(t@).len() <= u64::MAX,
    ensures
        type_field is None ==> r is None,
        type_field matches Some(url) ==> match packing_of(url@, crate::text::opt_view(value_text), value_rendered@) {
            Ok(Some(bytes)) => r matches Some(Ok((u, Packing::Encoded(b)))) && u@ == url@ && b@ == bytes,
            Ok(None) => r matches Some(Ok((u, Packing::Floating(k)))) && u@ == url@ && match k {
                FloatingKind::DoubleValue => last_piece(url@) == "google.protobuf.DoubleValue"@,
                FloatingKind::FloatValue => last_piece(url@) == "google.protobuf.FloatValue"@,
                FloatingKind::Value => last_piece(url@) == "google.protobuf.Value"@,
            },
            Err(m) => r matches Some(Err(e)) && e.kind() == ErrorKind::InvalidArgument && e.text() == m,
        },
{
    let type_url = match type_field {
        Some(u) => u,
        None => {
            return None;
        },
    };
    let suffix = last_piece_of(type_url.as_str());
    let s = suffix.as_str();
    if same_text(s, "google.protobuf.DoubleValue") {
        return Some(Ok((type_url, Packing::Floating(FloatingKind::DoubleValue))));
    }
    if same_text(s, "google.protobuf.FloatValue") {
        return Some(Ok((type_url, Packing::Floating(FloatingKind::FloatValue))));
    }
    if same_text(s, "google.protobuf.Value") {
        return Some(Ok((type_url, Packing::Floating(FloatingKind::Value))));
    }
    let range: Option<(i128, i128, bool)> = if same_text(s, "google.protobuf.Int64Value") {
        Some((-0x8000000000000000, 0x7fffffffffffffff, true))
    } else if same_text(s, "google.protobuf.UInt64Value") {
        Some((0, 0xffffffffffffffff, false))
    } else if same_text(s, "google.protobuf.Int32Value") {
        Some((-0x80000000, 0x7fffffff, true))
    } else if same_text(s, "google.protobuf.UInt32Value") {
        Some((0, 0xffffffff, false))
    } else {
        None
    };
    if let Some((min, max, signed)) = range {
        let parsed = match &value_text {
            Some(t) => parse_integer(t.as_str(), min, max, signed),
            None => parse_integer(value_rendered.as_str(), min, max, signed),
        };
        return match parsed {
            Some(v) => Some(Ok((type_url, Packing::Encoded(encode_varint_field(v as u64))))),
            None => {
                let a = concat("@type ", s);
                let b = concat(a.as_str(), ": invalid value ");
                Some(Err(Error::InvalidArgument(concat(b.as_str(), value_rendered.as_str()))))
            },
        };
    }
    if same_text(s, "google.protobuf.BoolValue") {
        if value_text.is_none() && same_text(value_rendered.as_str(), "true") {
            return Some(Ok((type_url, Packing::Encoded(BoolValue { value: true }.encode_to_vec()))));
        }
        if value_text.is_none() && same_text(value_rendered.as_str(), "false") {
            return Some(Ok((type_url, Packing::Encoded(BoolValue { value: false }.encode_to_vec()))));
        }
        let a = concat("@type ", s);
        return Some(Err(Error::InvalidArgument(concat(a.as_str(), ": invalid value"))));
    }
    if same_text(s, "google.protobuf.StringValue") {
        return match value_text {
            Some(t) => Some(Ok((type_url, Packing::Encoded(StringValue { value: t }.encode_to_vec())))),
            None => {
                let a = concat("@type ", s);
                Some(Err(Error::InvalidArgument(concat(a.as_str(), ": invalid value"))))
            },
        };
    }
    let a = concat("@type ", s);
    Some(Err(Error::InvalidArgument(concat(a.as_str(), " is not supported here"))))
}

// ---------------------------------------------------------------------------
// Unpacking `Any` payloads as JSON text

/// What `prost` decodes from the bytes of a `google.protobuf.StringValue`.
pub uninterp spec fn string_value_decoded(bytes: Seq<u8>) -> Option<Seq<char>>;

/// What `prost` decodes from the bytes of a `google.protobuf.BytesValue`.
pub uninterp spec fn bytes_value_decoded(bytes: Seq<u8>) -> Option<Seq<u8>>;

/// `<String as prost::Message>::decode`: the `StringValue` the bytes hold,
/// none when they do not decode.
#[verifier::external_body]
fn decode_string_value(bytes: &[u8]) -> (r: Option<String>)
    ensures
        crate::text::opt_view(r) == string_value_decoded(bytes@),
{
    <String as prost::Message>::decode(bytes).ok()
}

/// `<Vec<u8> as prost::Message>::decode`: the `BytesValue` the bytes hold,
/// none when they do not decode.
#[verifier::external_body]
fn decode_bytes_value(bytes: &[u8]) -> (r: Option<Vec<u8>>)
    ensures
        match r {
            Some(v) => bytes_value_decoded(bytes@) == Some(v@),
            None => bytes_value_decoded(bytes@) is None,
        },
{
    <Vec<u8> as prost::Message>::decode(bytes).ok()
}

/// The JSON text of an `Any` payload: a `google.protobuf.Value` as its JSON
/// rendering (`value_json`, when the bytes decode as one), a `BytesValue` or
/// `StringValue` wrapper unwrapped, anything else as its raw bytes (lossy).
pub open spec fn unpacked_text(type_url: Seq<char>, value: Seq<u8>, value_json: Option<Seq<char>>) -> Seq<char> {
    if has_suffix(type_url, "google.protobuf.Value"@) && value_json is Some {
        value_json->0
    } else if has_suffix(type_url, "google.protobuf.BytesValue"@) && bytes_value_decoded(value) is Some {
        lossy_utf8(bytes_value_decoded(value)->0)
    } else if has_suffix(type_url, "google.protobuf.StringValue"@) && string_value_decoded(value) is Some {
        string_value_decoded(value)->0
    } else {
        lossy_utf8(value)
    }
}

/// Unpack an `Any` (its type URL and bytes) back to JSON text. `value_json`
/// is the JSON rendering of the bytes read as a `google.protobuf.Value`,
/// when they read as one.
pub fn unpack_json(type_url: &str, value: &[u8], value_json: Option<String>) -> (r: String)
    ensures
        r@ == unpacked_text(type_url@, value@, crate::text::opt_view(value_json)),
{
    if ends_with(type_url, "google.protobuf.Value") {
        if let Some(json) = value_json {
            return json;
        }
    }
    if ends_with(type_url, "google.protobuf.BytesValue") {
        if let Some(bytes) = decode_bytes_value(value) {
            return utf8_lossy(bytes.as_slice());
        }
    }
    if ends_with(type_url, "google.protobuf.StringValue") {
        if let Some(text) = decode_string_value(value) {
            return text;
        }
    }
    utf8_lossy(value)
}

} // verus!
