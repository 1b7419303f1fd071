//! gRPC length-prefixed message framing: a one-byte compression flag, the
//! message length as a big-endian `u32`, then the message.

use vstd::prelude::*;

verus! {

/// The four big-endian bytes of `n`.
pub open spec fn be32(n: u32) -> Seq<u8> {
    seq![(n / 0x1000000) as u8, ((n / 0x10000) % 0x100) as u8, ((n / 0x100) % 0x100) as u8, (n % 0x100) as u8]
}

/// The number whose big-endian bytes are `b[0..4]`.
pub open spec fn from_be32(b: Seq<u8>) -> int {
    b[0] * 0x1000000 + b[1] * 0x10000 + b[2] * 0x100 + b[3]
}

/// The frame of one uncompressed message.
pub open spec fn framed(message: Seq<u8>) -> Seq<u8> {
    seq![0u8] + be32(message.len() as u32) + message
}

/// What reading one unary request body gives: an empty body is an empty
/// message; otherwise the 5-byte header must be present, uncompressed, and
/// its length must fit in the body (trailing bytes are ignored).
pub open spec fn unframed(body: Seq<u8>) -> Result<Seq<u8>, Seq<char>> {
    if body.len() == 0 {
        Ok(body)
    } else if body.len() < 5 {
        Err("gRPC frame shorter than its 5-byte header"@)
    } else if body[0] != 0 {
        Err("compressed gRPC frames are not supported"@)
    } else if 5 + from_be32(body.subrange(1, 5)) <= body.len() {
        Ok(body.subrange(5, 5 + from_be32(body.subrange(1, 5))))
    } else {
        Err("gRPC frame length exceeds body"@)
    }
}

/// Decoding the header of a frame gives back the length it encodes.
pub proof fn lemma_be32_roundtrip(n: u32)
    ensures
        from_be32(be32(n)) == n,
{
    let a = n / 0x1000000;
    let b = (n / 0x10000) % 0x100;
    let c = (n / 0x100) % 0x100;
    let d = n % 0x100;
    assert(a < 0x100);
    assert(a * 0x1000000 + b * 0x10000 + c * 0x100 + d == n) by (nonlinear_arith)
        requires
            a == n / 0x1000000,
            b == (n / 0x10000) % 0x100,
            c == (n / 0x100) % 0x100,
            d == n % 0x100,
    ;
}

/// Strip the 5-byte gRPC length prefix from a unary request body and
/// return the message bytes.
pub fn unframe(body: &[u8]) -> (r: Result<Vec<u8>, String>)
    ensures
        r matches Ok(m) ==> unframed(body@) == Ok::<Seq<u8>, Seq<char>>(m@),
        r matches Err(e) ==> unframed(body@) == Err::<Seq<u8>, Seq<char>>(e@),
{
    if body.len() == 0 {
        let empty: Vec<u8> = Vec::new();
        assert(empty@ =~= body@);
        return Ok(empty);
    }
    if body.len() < 5 {
        return Err("gRPC frame shorter than its 5-byte header".to_owned());
    }
    if body[0] != 0 {
        return Err("compressed gRPC frames are not supported".to_owned());
    }
    let len: u64 = (body[1] as u64) * 0x1000000 + (body[2] as u64) * 0x10000 + (body[3] as u64)
        * 0x100 + (body[4] as u64);
    assert(len == from_be32(body@.subrange(1, 5)));
    if 5 + len > body.len() as u64 {
        return Err("gRPC frame length exceeds body".to_owned());
    }
    let end = (5 + len) as usize;
    let mut out: Vec<u8> = Vec::new();
    let mut i: usize = 5;
    while i < end
        invariant
            5 <= i <= end <= body@.len(),
            out@ == body@.subrange(5, i as int),
        decreases end - i,
    {
        out.push(body[i]);
        i += 1;
    }
    Ok(out)
}

/// Frame a message as a single uncompressed gRPC length-prefixed payload.
pub fn frame(message: &[u8]) -> (out: Vec<u8>)
    requires
        message@.len() <= u32::MAX,
    ensures
        out@ == framed(message@),
{
    let n = message.len() as u32;
    let mut out: Vec<u8> = Vec::new();
    out.push(0);
    out.push((n / 0x1000000) as u8);
    out.push(((n / 0x10000) % 0x100) as u8);
    out.push(((n / 0x100) % 0x100) as u8);
    out.push((n % 0x100) as u8);
    assert(out@ =~= seq![0u8] + be32(n));
    let mut i: usize = 0;
    while i < message.len()
        invariant
            i <= message@.len(),
            n == message@.len(),
            out@ == seq![0u8] + be32(n) + message@.subrange(0, i as int),
        decreases message.len() - i,
    {
        out.push(message[i]);
        i += 1;
        assert(out@ =~= seq![0u8] + be32(n) + message@.subrange(0, i as int));
    }
    assert(message@.subrange(0, message@.len() as int) =~= message@);
    out
}

/// Reading back a framed message gives the message.
pub proof fn lemma_unframe_frame(message: Seq<u8>)
    requires
        message.len() <= u32::MAX,
    ensures
        unframed(framed(message)) == Ok::<Seq<u8>, Seq<char>>(message),
{
    let f = framed(message);
    let n = message.len() as u32;
    lemma_be32_roundtrip(n);
    assert(f.subrange(1, 5) =~= be32(n));
    assert(f.subrange(5, 5 + message.len() as int) =~= message);
}

/// A body that reads as a message begins with that message's frame (unless it is empty).
pub proof fn lemma_unframe_prefix(body: Seq<u8>)
    requires
        body.len() > 0,
        unframed(body) is Ok,
    ensures
        unframed(body) matches Ok(m) && m.len() <= u32::MAX && body.subrange(0, 5 + m.len() as int) =~= framed(m),
{
    let m = unframed(body)->Ok_0;
    let len = from_be32(body.subrange(1, 5));
    assert(len < 0x100000000) by (nonlinear_arith)
        requires
            len == body[1] * 0x1000000 + body[2] * 0x10000 + body[3] * 0x100 + body[4],
            0 <= body[1] < 0x100, 0 <= body[2] < 0x100, 0 <= body[3] < 0x100, 0 <= body[4] < 0x100,
    ;
    assert(m.len() == len);
    let n = len as u32;
    assert(be32(n) =~= body.subrange(1, 5)) by {
        let b1 = body[1] as int; let b2 = body[2] as int; let b3 = body[3] as int; let b4 = body[4] as int;
        assert(n / 0x1000000 == b1 && (n / 0x10000) % 0x100 == b2 && (n / 0x100) % 0x100 == b3 && n % 0x100 == b4) by (nonlinear_arith)
            requires
                n == b1 * 0x1000000 + b2 * 0x10000 + b3 * 0x100 + b4,
                0 <= b1 < 0x100, 0 <= b2 < 0x100, 0 <= b3 < 0x100, 0 <= b4 < 0x100,
        ;
    }
}

} // verus!
