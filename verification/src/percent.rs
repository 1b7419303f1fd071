//! Percent-encoding of path segments and query values (through the
//! `urlencoding` crate), and the laws that tie encoding and decoding together.

use vstd::prelude::*;
use vstd::utf8::{encode_utf8, decode_utf8, valid_utf8, is_ascii_chars};

verus! {

/// Bytes that `urlencoding::encode` leaves as they are: ASCII letters and
/// digits and `-`, `.`, `_`, `~`.
pub open spec fn unreserved(b: u8) -> bool {
    ||| 48 <= b <= 57
    ||| 65 <= b <= 90
    ||| 97 <= b <= 122
    ||| b == 45
    ||| b == 46
    ||| b == 95
    ||| b == 126
}

/// An uppercase hexadecimal digit.
pub open spec fn hex_upper(d: nat) -> char {
    if d < 10 {
        (48 + d) as char
    } else {
        (55 + d) as char
    }
}

/// One byte as it appears in encoded text.
pub open spec fn escape(b: u8) -> Seq<char> {
    if unreserved(b) {
        seq![b as char]
    } else {
        seq!['%', hex_upper((b / 16) as nat), hex_upper((b % 16) as nat)]
    }
}

/// Percent-encoding of a byte string: unreserved bytes stay, every other
/// byte becomes `%` and two uppercase hex digits.
pub open spec fn percent_encode(bytes: Seq<u8>) -> Seq<char>
    decreases bytes.len(),
{
    if bytes.len() == 0 {
        Seq::empty()
    } else {
        escape(bytes[0]) + percent_encode(bytes.drop_first())
    }
}

/// The percent-encoding of a string's UTF-8 bytes.
pub open spec fn url_encoded(text: Seq<char>) -> Seq<char> {
    percent_encode(encode_utf8(text))
}

/// A hexadecimal digit of either case.
pub open spec fn is_hex(b: u8) -> bool {
    (48 <= b <= 57) || (65 <= b <= 70) || (97 <= b <= 102)
}

/// The value of a hexadecimal digit.
pub open spec fn hex_value(b: u8) -> nat {
    if 48 <= b <= 57 {
        (b - 48) as nat
    } else if 65 <= b <= 70 {
        (b - 55) as nat
    } else {
        (b - 87) as nat
    }
}

/// Percent-decoding of a byte string: every `%` followed by two hex digits
/// becomes the byte they spell; everything else (a lone `%` included) stays.
pub open spec fn percent_decode(s: Seq<u8>) -> Seq<u8>
    decreases s.len(),
{
    if s.len() == 0 {
        s
    } else if s[0] == 37 && s.len() >= 3 && is_hex(s[1]) && is_hex(s[2]) {
        seq![(hex_value(s[1]) * 16 + hex_value(s[2])) as u8] + percent_decode(
            s.subrange(3, s.len() as int),
        )
    } else {
        seq![s[0]] + percent_decode(s.drop_first())
    }
}

/// What `urlencoding::decode` gives for `text`: the decoded bytes read as
/// UTF-8, or nothing when they are not valid UTF-8.
pub open spec fn url_decoded(text: Seq<char>) -> Option<Seq<char>> {
    let d = percent_decode(encode_utf8(text));
    if valid_utf8(d) {
        Some(decode_utf8(d))
    } else {
        None
    }
}

/// Percent-encode a path segment (`urlencoding::encode`): the UTF-8 bytes of
/// `value`, each unreserved byte kept and every other byte written as `%`
/// and two uppercase hex digits.
#[verifier::external_body]
pub fn seg(value: &str) -> (s: String)
    ensures
        s@ == url_encoded(value@),
{
    urlencoding::encode(value).into_owned()
}

/// `urlencoding::decode`: percent-decodes `text` and reads the bytes as
/// UTF-8; `None` stands for its `FromUtf8Error`.
#[verifier::external_body]
fn percent_decoded(text: &str) -> (r: Option<String>)
    ensures
        r is None <==> url_decoded(text@) is None,
        r matches Some(s) ==> url_decoded(text@) == Some(s@),
{
    urlencoding::decode(text).ok().map(|s| s.into_owned())
}

/// Decode one percent-encoded path segment, keeping it as it is when the
/// decoded bytes are not UTF-8.
pub fn decode(segment: &str) -> (s: String)
    ensures
        url_decoded(segment@) matches Some(d) ==> s@ == d,
        url_decoded(segment@) is None ==> s@ == segment@,
{
    match percent_decoded(segment) {
        Some(s) => s,
        None => segment.to_owned(),
    }
}

/// The ASCII bytes of ASCII characters.
pub open spec fn ascii_bytes(cs: Seq<char>) -> Seq<u8> {
    Seq::new(cs.len(), |i: int| cs[i] as u8)
}

proof fn lemma_escape_ascii(b: u8)
    ensures
        is_ascii_chars(escape(b)),
        ascii_bytes(escape(b)) == (if unreserved(b) {
            seq![b]
        } else {
            seq![37u8, hex_upper((b / 16) as nat) as u8, hex_upper((b % 16) as nat) as u8]
        }),
{
    assert(ascii_bytes(escape(b)) =~= (if unreserved(b) {
        seq![b]
    } else {
        seq![37u8, hex_upper((b / 16) as nat) as u8, hex_upper((b % 16) as nat) as u8]
    }));
}

proof fn lemma_encode_ascii(bytes: Seq<u8>)
    ensures
        is_ascii_chars(percent_encode(bytes)),
    decreases bytes.len(),
{
    if bytes.len() > 0 {
        lemma_escape_ascii(bytes[0]);
        lemma_encode_ascii(bytes.drop_first());
        let a = escape(bytes[0]);
        let r = percent_encode(bytes.drop_first());
        assert forall|i: int| 0 <= i < (a + r).len() implies '\0' <= #[trigger] (a + r)[i]
            <= '\u{7f}' by {
            if i < a.len() {
                assert((a + r)[i] == a[i]);
            } else {
                assert((a + r)[i] == r[i - a.len()]);
            }
        }
    }
}

proof fn lemma_hex_roundtrip(d: nat)
    requires
        d < 16,
    ensures
        is_hex(hex_upper(d) as u8),
        hex_value(hex_upper(d) as u8) == d,
{
}

/// Decoding the ASCII bytes of an encoding gives back the bytes encoded.
proof fn lemma_decode_encode_bytes(bytes: Seq<u8>)
    ensures
        percent_decode(ascii_bytes(percent_encode(bytes))) == bytes,
    decreases bytes.len(),
{
    if bytes.len() == 0 {
        assert(ascii_bytes(percent_encode(bytes)) =~= Seq::<u8>::empty());
    } else {
        let b = bytes[0];
        let rest = bytes.drop_first();
        lemma_decode_encode_bytes(rest);
        lemma_escape_ascii(b);
        let head = ascii_bytes(escape(b));
        let tail = ascii_bytes(percent_encode(rest));
        let all = ascii_bytes(percent_encode(bytes));
        assert(all =~= head + tail);
        if unreserved(b) {
            assert(all[0] == b);
            assert(all.drop_first() =~= tail);
            assert(percent_decode(all) =~= seq![b] + percent_decode(tail));
        } else {
            let hi = (b / 16) as nat;
            let lo = (b % 16) as nat;
            lemma_hex_roundtrip(hi);
            lemma_hex_roundtrip(lo);
            assert(all[0] == 37u8);
            assert(all[1] == hex_upper(hi) as u8);
            assert(all[2] == hex_upper(lo) as u8);
            assert(all.subrange(3, all.len() as int) =~= tail);
            assert((hi * 16 + lo) as u8 == b);
            assert(percent_decode(all) =~= seq![b] + percent_decode(tail));
        }
        assert(seq![b] + rest =~= bytes);
    }
}

/// Segment round trip: decoding what [`seg`] encoded gives the text back,
/// so a path segment built by the outbound side reads the same inbound.
pub proof fn lemma_decode_of_encoded(text: Seq<char>)
    ensures
        url_decoded(url_encoded(text)) == Some(text),
{
    let bytes = encode_utf8(text);
    let e = percent_encode(bytes);
    lemma_encode_ascii(bytes);
    vstd::utf8::is_ascii_chars_encode_utf8(e);
    assert(encode_utf8(e) =~= ascii_bytes(e));
    lemma_decode_encode_bytes(bytes);
    vstd::utf8::encode_utf8_valid_utf8(text);
    vstd::utf8::encode_utf8_decode_utf8(text);
}

/// A character that may appear in encoded text.
pub open spec fn encoded_char(c: char) -> bool {
    unreserved(c as u8) && (c as u32) < 128 || c == '%'
}

/// Encoded text holds only unreserved characters and `%`: no `/`, `?`, `&`,
/// `=` or `#`, so an encoded value stays one path segment or query value.
pub proof fn lemma_encoded_chars(text: Seq<char>)
    ensures
        forall|i: int| 0 <= i < url_encoded(text).len() ==> encoded_char(#[trigger] url_encoded(text)[i]),
{
    lemma_encoded_chars_bytes(encode_utf8(text));
}

proof fn lemma_encoded_chars_bytes(bytes: Seq<u8>)
    ensures
        forall|i: int| 0 <= i < percent_encode(bytes).len() ==> encoded_char(#[trigger] percent_encode(bytes)[i]),
    decreases bytes.len(),
{
    if bytes.len() > 0 {
        lemma_encoded_chars_bytes(bytes.drop_first());
        let a = escape(bytes[0]);
        let r = percent_encode(bytes.drop_first());
        assert forall|i: int| 0 <= i < (a + r).len() implies encoded_char(#[trigger] (a + r)[i]) by {
            if i < a.len() {
                assert((a + r)[i] == a[i]);
                let b = bytes[0];
                if !unreserved(b) && i > 0 {
                    let d: nat = if i == 1 { (b / 16) as nat } else { (b % 16) as nat };
                    assert(a[i] == hex_upper(d));
                }
            } else {
                assert((a + r)[i] == r[i - a.len()]);
            }
        }
    }
}

} // verus!
