//! The small standard-alphabet base64 decoder used for CloudEvent
//! `data_base64` payloads. Its behaviour is deliberately simple: ASCII
//! whitespace is dropped, the rest is cut into groups of four, `=` counts as
//! a zero sextet, and each group yields three bytes minus one per `=` in it.

use vstd::prelude::*;
use crate::text::{bytes_of, push_char, concat};

verus! {

/// ASCII whitespace as `u8::is_ascii_whitespace` defines it.
pub open spec fn is_ascii_ws(b: u8) -> bool {
    b == 0x20 || b == 0x09 || b == 0x0A || b == 0x0C || b == 0x0D
}

/// `s` without its ASCII whitespace bytes.
pub open spec fn without_ws(s: Seq<u8>) -> Seq<u8>
    decreases s.len(),
{
    if s.len() == 0 {
        s
    } else if is_ascii_ws(s.last()) {
        without_ws(s.drop_last())
    } else {
        without_ws(s.drop_last()).push(s.last())
    }
}

/// The value of a base64 character of the standard alphabet.
pub open spec fn sextet(c: u8) -> Option<u8> {
    if 65 <= c <= 90 {
        Some((c - 65) as u8)
    } else if 97 <= c <= 122 {
        Some((c - 71) as u8)
    } else if 48 <= c <= 57 {
        Some((c + 4) as u8)
    } else if c == 43 {
        Some(62u8)
    } else if c == 47 {
        Some(63u8)
    } else {
        None
    }
}

/// What a character contributes to its group: `=` counts as zero.
pub open spec fn contribution(c: u8) -> nat {
    if c == 61 {
        0
    } else {
        match sextet(c) {
            Some(v) => v as nat,
            None => 0,
        }
    }
}

/// The number of `=` in a group.
pub open spec fn pad_count(c: Seq<u8>) -> nat
    decreases c.len(),
{
    if c.len() == 0 {
        0
    } else {
        pad_count(c.drop_last()) + if c.last() == 61 { 1nat } else { 0nat }
    }
}

/// The sextets of a group, most significant first.
pub open spec fn group_value(c: Seq<u8>) -> nat
    decreases c.len(),
{
    if c.len() == 0 {
        0
    } else {
        group_value(c.drop_last()) * 64 + contribution(c.last())
    }
}

/// The first character of a group that is neither `=` nor in the alphabet.
pub open spec fn first_bad(c: Seq<u8>) -> Option<u8>
    decreases c.len(),
{
    if c.len() == 0 {
        None
    } else if first_bad(c.drop_last()) is Some {
        first_bad(c.drop_last())
    } else if c.last() != 61 && sextet(c.last()) is None {
        Some(c.last())
    } else {
        None
    }
}

/// The bytes a group yields: the low 24 bits of its value, big-endian,
/// minus one byte per `=`.
pub open spec fn group_bytes(c: Seq<u8>) -> Seq<u8> {
    let v = group_value(c);
    seq![((v / 0x10000) % 0x100) as u8, ((v / 0x100) % 0x100) as u8, (v % 0x100) as u8].take(
        3 - pad_count(c),
    )
}

/// Where the group that starts `s` ends.
pub open spec fn group_end(s: Seq<u8>) -> int {
    if s.len() < 4 {
        s.len() as int
    } else {
        4
    }
}

/// Decoding of whitespace-free input: the bytes, or the first bad character.
pub open spec fn decode_groups(s: Seq<u8>) -> Result<Seq<u8>, u8>
    decreases s.len(),
{
    if s.len() == 0 {
        Ok(Seq::empty())
    } else {
        let c = s.take(group_end(s));
        match first_bad(c) {
            Some(b) => Err(b),
            None => match decode_groups(s.subrange(group_end(s), s.len() as int)) {
                Ok(rest) => Ok(group_bytes(c) + rest),
                Err(b) => Err(b),
            },
        }
    }
}

/// Decoding traps on a group of four `=` reached before any bad character.
pub open spec fn traps(s: Seq<u8>) -> bool
    decreases s.len(),
{
    if s.len() == 0 {
        false
    } else {
        let c = s.take(group_end(s));
        if first_bad(c) is Some {
            false
        } else if pad_count(c) > 3 {
            true
        } else {
            traps(s.subrange(group_end(s), s.len() as int))
        }
    }
}

/// A lowercase hexadecimal digit.
pub open spec fn hex_digit(d: nat) -> char {
    if d < 10 {
        (48 + d) as char
    } else {
        (87 + d) as char
    }
}

/// `{:#x}` of a byte: `0x` and its lowercase hex digits, without leading zeros.
pub open spec fn alt_hex(b: u8) -> Seq<char> {
    if b < 16 {
        seq!['0', 'x', hex_digit(b as nat)]
    } else {
        seq!['0', 'x', hex_digit((b / 16) as nat), hex_digit((b % 16) as nat)]
    }
}

/// What decoding `text` gives: the bytes, or the message naming the first bad character.
pub open spec fn base64_result(text: Seq<char>) -> Result<Seq<u8>, Seq<char>> {
    match decode_groups(without_ws(vstd::utf8::encode_utf8(text))) {
        Ok(bytes) => Ok(bytes),
        Err(b) => Err("invalid base64 character: "@ + alt_hex(b)),
    }
}

/// `prefix` in front of a decoding result.
pub open spec fn after(prefix: Seq<u8>, r: Result<Seq<u8>, u8>) -> Result<Seq<u8>, u8> {
    match r {
        Ok(bytes) => Ok(prefix + bytes),
        Err(b) => Err(b),
    }
}

fn hex_char(d: u8) -> (c: char)
    requires
        d < 16,
    ensures
        c == hex_digit(d as nat),
{
    if d < 10 {
        (48 + d) as char
    } else {
        (87 + d) as char
    }
}

/// Render a byte as `{:#x}` does.
fn alt_hex_of(b: u8) -> (s: String)
    ensures
        s@ == alt_hex(b),
{
    let mut s = String::new();
    push_char(&mut s, '0');
    push_char(&mut s, 'x');
    if b < 16 {
        push_char(&mut s, hex_char(b));
    } else {
        push_char(&mut s, hex_char(b / 16));
        push_char(&mut s, hex_char(b % 16));
    }
    assert(s@ =~= alt_hex(b));
    s
}

fn sextet_of(c: u8) -> (r: Option<u8>)
    ensures
        r == sextet(c),
{
    if 65 <= c && c <= 90 {
        Some(c - 65)
    } else if 97 <= c && c <= 122 {
        Some(c - 71)
    } else if 48 <= c && c <= 57 {
        Some(c + 4)
    } else if c == 43 {
        Some(62)
    } else if c == 47 {
        Some(63)
    } else {
        None
    }
}

proof fn lemma_group_value_bound(c: Seq<u8>)
    ensures
        group_value(c) < pow64(c.len()),
    decreases c.len(),
{
    if c.len() > 0 {
        lemma_group_value_bound(c.drop_last());
        assert(contribution(c.last()) < 64);
        let g = group_value(c.drop_last());
        let p = pow64(c.drop_last().len());
        assert(g * 64 + contribution(c.last()) < p * 64) by (nonlinear_arith)
            requires
                g < p,
                contribution(c.last()) < 64,
        ;
    }
}

/// `64` to the power `n`.
pub open spec fn pow64(n: nat) -> nat
    decreases n,
{
    if n == 0 {
        1
    } else {
        pow64((n - 1) as nat) * 64
    }
}

/// Decode the group `input[start..end]`.
fn decode_group(input: &Vec<u8>, start: usize, end: usize) -> (r: Result<Vec<u8>, u8>)
    requires
        start < end <= input.len(),
        end - start <= 4,
        first_bad(input@.subrange(start as int, end as int)) is None ==> pad_count(
            input@.subrange(start as int, end as int),
        ) <= 3,
    ensures
        first_bad(input@.subrange(start as int, end as int)) matches Some(b) ==> r == Err::<Vec<u8>, u8>(b),
        first_bad(input@.subrange(start as int, end as int)) is None ==> (r matches Ok(v)
            && v@ == group_bytes(input@.subrange(start as int, end as int))),
{
    let ghost whole = input@.subrange(start as int, end as int);
    let mut pad: usize = 0;
    let mut acc: u32 = 0;
    let mut j: usize = start;
    while j < end
        invariant
            start <= j <= end <= input.len(),
            end - start <= 4,
            whole == input@.subrange(start as int, end as int),
            pad == pad_count(input@.subrange(start as int, j as int)),
            pad <= j - start,
            acc == group_value(input@.subrange(start as int, j as int)),
            first_bad(input@.subrange(start as int, j as int)) is None,
        decreases end - j,
    {
        let ghost before = input@.subrange(start as int, j as int);
        let ghost now = input@.subrange(start as int, j + 1);
        assert(now.drop_last() =~= before);
        assert(now.last() == input@[j as int]);
        proof {
            lemma_group_value_bound(before);
            lemma_pow64_le4(before.len());
        }
        let c = input[j];
        let v: u32 = if c == 61 {
            pad = pad + 1;
            0
        } else {
            match sextet_of(c) {
                Some(v) => v as u32,
                None => {
                    proof {
                        lemma_first_bad_prefix(whole, (j - start + 1) as nat);
                        assert(whole.take((j - start + 1) as int) =~= now);
                    }
                    return Err(c);
                },
            }
        };
        assert(acc < 0x1000000);
        acc = acc * 64 + v;
        j = j + 1;
    }
    assert(input@.subrange(start as int, j as int) =~= whole);
    let b0 = ((acc / 0x10000) % 0x100) as u8;
    let b1 = ((acc / 0x100) % 0x100) as u8;
    let b2 = (acc % 0x100) as u8;
    let mut out: Vec<u8> = Vec::new();
    if pad < 3 {
        out.push(b0);
    }
    if pad < 2 {
        out.push(b1);
    }
    if pad < 1 {
        out.push(b2);
    }
    assert(out@ =~= group_bytes(whole));
    Ok(out)
}

/// A bad character in a prefix of a group is the group's first bad character.
proof fn lemma_first_bad_prefix(c: Seq<u8>, k: nat)
    requires
        k <= c.len(),
        first_bad(c.take(k as int)) is Some,
    ensures
        first_bad(c) == first_bad(c.take(k as int)),
    decreases c.len(),
{
    if k < c.len() {
        assert(c.drop_last().take(k as int) =~= c.take(k as int));
        lemma_first_bad_prefix(c.drop_last(), k);
    } else {
        assert(c.take(k as int) =~= c);
    }
}

proof fn lemma_pow64_le4(n: nat)
    requires
        n < 4,
    ensures
        pow64(n) * 64 <= 0x1000000,
{
    reveal_with_fuel(pow64, 4);
}

/// Decode standard-alphabet base64, ignoring ASCII whitespace.
pub fn base64_decode(input: &str) -> (r: Result<Vec<u8>, String>)
    requires
        !traps(without_ws(vstd::utf8::encode_utf8(input@))),
    ensures
        r matches Ok(v) ==> base64_result(input@) == Ok::<Seq<u8>, Seq<char>>(v@),
        r matches Err(e) ==> base64_result(input@) == Err::<Seq<u8>, Seq<char>>(e@),
{
    let raw = bytes_of(input);
    let mut clean: Vec<u8> = Vec::new();
    let mut k: usize = 0;
    while k < raw.len()
        invariant
            k <= raw@.len(),
            clean@ == without_ws(raw@.take(k as int)),
        decreases raw.len() - k,
    {
        assert(raw@.take(k + 1).drop_last() =~= raw@.take(k as int));
        let b = raw[k];
        if !(b == 0x20 || b == 0x09 || b == 0x0A || b == 0x0C || b == 0x0D) {
            clean.push(b);
        }
        k = k + 1;
    }
    assert(raw@.take(raw@.len() as int) =~= raw@);
    let ghost s = clean@;
    let mut out: Vec<u8> = Vec::new();
    let mut i: usize = 0;
    assert(s.subrange(0, s.len() as int) =~= s);
    while i < clean.len()
        invariant
            i <= clean@.len(),
            s == clean@,
            s == without_ws(vstd::utf8::encode_utf8(input@)),
            decode_groups(s) == after(out@, decode_groups(s.subrange(i as int, s.len() as int))),
            !traps(s.subrange(i as int, s.len() as int)),
        decreases clean.len() - i,
    {
        let ghost rest = s.subrange(i as int, s.len() as int);
        let end: usize = if clean.len() - i < 4 {
            clean.len()
        } else {
            i + 4
        };
        assert(rest.take(group_end(rest)) =~= s.subrange(i as int, end as int));
        assert(rest.subrange(group_end(rest), rest.len() as int) =~= s.subrange(
            end as int,
            s.len() as int,
        ));
        match decode_group(&clean, i, end) {
            Err(b) => {
                assert(decode_groups(rest) == Err::<Seq<u8>, u8>(b));
                assert(decode_groups(s) == Err::<Seq<u8>, u8>(b));
                let msg = concat("invalid base64 character: ", alt_hex_of(b).as_str());
                return Err(msg);
            },
            Ok(bytes) => {
                let ghost old_out = out@;
                let mut m: usize = 0;
                while m < bytes.len()
                    invariant
                        m <= bytes@.len(),
                        out@ == old_out + bytes@.take(m as int),
                    decreases bytes.len() - m,
                {
                    out.push(bytes[m]);
                    m = m + 1;
                    assert(out@ =~= old_out + bytes@.take(m as int));
                }
                assert(bytes@.take(bytes@.len() as int) =~= bytes@);
                let ghost next = decode_groups(s.subrange(end as int, s.len() as int));
                proof {
                    if let Ok(x) = next {
                        assert(old_out + (bytes@ + x) =~= out@ + x);
                    }
                }
                assert(after(old_out, after(bytes@, next)) == after(out@, next));
            },
        }
        i = end;
    }
    assert(s.subrange(i as int, s.len() as int) =~= Seq::<u8>::empty());
    assert(out@ + Seq::<u8>::empty() =~= out@);
    Ok(out)
}

/// Whether decoding `input` would trap: a group of four `=` comes before
/// any bad character (the decoder's precondition, checked).
pub fn base64_traps(input: &str) -> (b: bool)
    ensures
        b == traps(without_ws(vstd::utf8::encode_utf8(input@))),
{
    let raw = bytes_of(input);
    let mut clean: Vec<u8> = Vec::new();
    let mut k: usize = 0;
    while k < raw.len()
        invariant
            k <= raw@.len(),
            clean@ == without_ws(raw@.take(k as int)),
        decreases raw.len() - k,
    {
        assert(raw@.take(k + 1).drop_last() =~= raw@.take(k as int));
        let b = raw[k];
        if !(b == 0x20 || b == 0x09 || b == 0x0A || b == 0x0C || b == 0x0D) {
            clean.push(b);
        }
        k = k + 1;
    }
    assert(raw@.take(raw@.len() as int) =~= raw@);
    let ghost s = clean@;
    let mut i: usize = 0;
    assert(s.subrange(0, s.len() as int) =~= s);
    while i < clean.len()
        invariant
            i <= clean@.len(),
            s == clean@,
            s == without_ws(vstd::utf8::encode_utf8(input@)),
            traps(s) == traps(s.subrange(i as int, s.len() as int)),
        decreases clean.len() - i,
    {
        let ghost rest = s.subrange(i as int, s.len() as int);
        let end: usize = if clean.len() - i < 4 {
            clean.len()
        } else {
            i + 4
        };
        let ghost c = s.subrange(i as int, end as int);
        assert(rest.take(group_end(rest)) =~= c);
        assert(rest.subrange(group_end(rest), rest.len() as int) =~= s.subrange(
            end as int,
            s.len() as int,
        ));
        // Scan the group: a bad character ends the decoding before any trap.
        let mut pad: usize = 0;
        let mut j: usize = i;
        while j < end
            invariant
                i <= j <= end <= clean@.len(),
                end - i <= 4,
                s == clean@,
                c == s.subrange(i as int, end as int),
                s == without_ws(vstd::utf8::encode_utf8(input@)),
                traps(s) == traps(s.subrange(i as int, s.len() as int)),
                s.subrange(i as int, s.len() as int).take(group_end(s.subrange(i as int, s.len() as int))) == c,
                pad == pad_count(s.subrange(i as int, j as int)),
                pad <= j - i,
                first_bad(s.subrange(i as int, j as int)) is None,
            decreases end - j,
        {
            let ghost before = s.subrange(i as int, j as int);
            let ghost now = s.subrange(i as int, j + 1);
            assert(now.drop_last() =~= before);
            let ch = clean[j];
            if ch == 61 {
                pad = pad + 1;
            } else if sextet_of(ch).is_none() {
                proof {
                    lemma_first_bad_prefix(c, (j - i + 1) as nat);
                    assert(c.take((j - i + 1) as int) =~= now);
                }
                return false;
            }
            j = j + 1;
        }
        assert(s.subrange(i as int, j as int) =~= c);
        if pad > 3 {
            return true;
        }
        i = end;
    }
    assert(s.subrange(i as int, s.len() as int) =~= Seq::<u8>::empty());
    false
}

// ---------------------------------------------------------------------------
// Standard base64 reads back

/// The character of a sextet in the standard alphabet.
pub open spec fn b64_char(v: nat) -> u8 {
    if v < 26 {
        (65 + v) as u8
    } else if v < 52 {
        (71 + v) as u8
    } else if v < 62 {
        (v - 4) as u8
    } else if v == 62 {
        43u8
    } else {
        47u8
    }
}

/// The four characters standard base64 (RFC 4648) writes for one to three
/// bytes, padded with `=`.
pub open spec fn encode_group(x: Seq<u8>) -> Seq<u8> {
    let x0 = x[0] as nat;
    let x1 = if x.len() > 1 { x[1] as nat } else { 0 };
    let x2 = if x.len() > 2 { x[2] as nat } else { 0 };
    seq![
        b64_char(x0 / 4),
        b64_char((x0 % 4) * 16 + x1 / 16),
        if x.len() > 1 { b64_char((x1 % 16) * 4 + x2 / 64) } else { 61u8 },
        if x.len() > 2 { b64_char(x2 % 64) } else { 61u8 },
    ]
}

/// The standard base64 encoding of `b`, with `=` padding.
pub open spec fn std_base64(b: Seq<u8>) -> Seq<u8>
    decreases b.len(),
{
    if b.len() == 0 {
        Seq::empty()
    } else if b.len() <= 3 {
        encode_group(b)
    } else {
        encode_group(b.take(3)) + std_base64(b.skip(3))
    }
}

proof fn lemma_b64_char(v: nat)
    requires
        v < 64,
    ensures
        sextet(b64_char(v)) == Some(v as u8),
        b64_char(v) != 61,
        contribution(b64_char(v)) == v,
{
}

proof fn lemma_group_arith(x0: nat, x1: nat, x2: nat)
    requires
        x0 < 256,
        x1 < 256,
        x2 < 256,
    ensures
        (((x0 / 4) * 64 + ((x0 % 4) * 16 + x1 / 16)) * 64 + ((x1 % 16) * 4 + x2 / 64)) * 64 + x2 % 64
            == x0 * 65536 + x1 * 256 + x2,
        (x0 * 65536 + x1 * 256 + x2) / 65536 % 256 == x0,
        (x0 * 65536 + x1 * 256 + x2) / 256 % 256 == x1,
        (x0 * 65536 + x1 * 256 + x2) % 256 == x2,
        (x0 % 4) * 16 + x1 / 16 < 64,
        (x1 % 16) * 4 + x2 / 64 < 64,
{
}

/// One encoded group decodes to its bytes, with one `=` per missing byte.
proof fn lemma_group_roundtrip(x: Seq<u8>)
    requires
        1 <= x.len() <= 3,
    ensures
        first_bad(encode_group(x)) is None,
        pad_count(encode_group(x)) == 3 - x.len(),
        group_bytes(encode_group(x)) == x,
{
    let c = encode_group(x);
    let x0 = x[0] as nat;
    let x1: nat = if x.len() > 1 { x[1] as nat } else { 0 };
    let x2: nat = if x.len() > 2 { x[2] as nat } else { 0 };
    lemma_group_arith(x0, x1, x2);
    lemma_b64_char(x0 / 4);
    lemma_b64_char((x0 % 4) * 16 + x1 / 16);
    if x.len() > 1 {
        lemma_b64_char((x1 % 16) * 4 + x2 / 64);
    }
    if x.len() > 2 {
        lemma_b64_char(x2 % 64);
    }
    let c3 = c.drop_last();
    let c2 = c3.drop_last();
    let c1 = c2.drop_last();
    assert(c1.drop_last() =~= Seq::<u8>::empty());
    assert(c1 =~= seq![c[0]]);
    assert(c2 =~= seq![c[0], c[1]]);
    assert(c3 =~= seq![c[0], c[1], c[2]]);
    assert(c1.last() == c[0]);
    assert(c2.last() == c[1]);
    assert(c3.last() == c[2]);
    let v = ((x0 / 4) * 64 + ((x0 % 4) * 16 + x1 / 16)) * 64;
    assert(group_value(c1.drop_last()) == 0);
    assert(first_bad(c1.drop_last()) is None);
    assert(pad_count(c1.drop_last()) == 0);
    assert(group_value(c1) == x0 / 4);
    assert(group_value(c2) == (x0 / 4) * 64 + ((x0 % 4) * 16 + x1 / 16));
    if x.len() > 1 {
        assert(group_value(c3) == v + ((x1 % 16) * 4 + x2 / 64));
    } else {
        assert(group_value(c3) == v);
    }
    let total = x0 * 65536 + x1 * 256 + x2;
    assert(group_value(c) == total);
    assert(first_bad(c1) is None);
    assert(first_bad(c2) is None);
    assert(first_bad(c3) is None);
    assert(pad_count(c1) == 0);
    assert(pad_count(c2) == 0);
    assert(c.last() == c[3]);
    assert(c[2] == 61 <==> x.len() == 1);
    assert(c[3] == 61 <==> x.len() <= 2);
    assert(pad_count(c3) == if x.len() == 1 { 1nat } else { 0nat });
    assert(pad_count(c) == 3 - x.len());
    let bytes = seq![((total / 0x10000) % 0x100) as u8, ((total / 0x100) % 0x100) as u8, (total % 0x100) as u8];
    assert(bytes[0] == x[0]);
    if x.len() > 1 {
        assert(bytes[1] == x[1]);
    }
    if x.len() > 2 {
        assert(bytes[2] == x[2]);
    }
    assert(group_bytes(c) =~= x);
}

/// Standard base64 reads back: a text that is the standard encoding of
/// `b` with ASCII whitespace anywhere in it decodes to `b`, without the
/// decoder's overflow.
pub proof fn lemma_base64_roundtrip(b: Seq<u8>, text: Seq<char>)
    requires
        without_ws(vstd::utf8::encode_utf8(text)) == std_base64(b),
    ensures
        base64_result(text) == Ok::<Seq<u8>, Seq<char>>(b),
        !traps(without_ws(vstd::utf8::encode_utf8(text))),
{
    lemma_std_base64_decodes(b);
}

proof fn lemma_std_base64_decodes(b: Seq<u8>)
    ensures
        decode_groups(std_base64(b)) == Ok::<Seq<u8>, u8>(b),
        !traps(std_base64(b)),
    decreases b.len(),
{
    let s = std_base64(b);
    if b.len() == 0 {
        assert(b =~= Seq::<u8>::empty());
    } else {
        let g = if b.len() <= 3 { b } else { b.take(3) };
        let rest = if b.len() <= 3 { Seq::<u8>::empty() } else { b.skip(3) };
        lemma_group_roundtrip(g);
        if b.len() > 3 {
            lemma_std_base64_decodes(rest);
        }
        assert(s =~= encode_group(g) + std_base64(rest));
        assert(group_end(s) == 4);
        assert(s.take(4) =~= encode_group(g));
        assert(s.subrange(4, s.len() as int) =~= std_base64(rest));
        assert(g + rest =~= b);
        assert(decode_groups(std_base64(rest)) == Ok::<Seq<u8>, u8>(rest));
        assert(!traps(std_base64(rest)));
        assert(first_bad(s.take(group_end(s))) is None);
        assert(decode_groups(s) == Ok::<Seq<u8>, u8>(group_bytes(encode_group(g)) + rest));
        assert(group_bytes(encode_group(g)) + rest == b);
    }
}

} // verus!
