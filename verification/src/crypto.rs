//! Cryptography (one-shot encrypt/decrypt): the request headers of the
//! HTTP API and the reassembly of the gRPC response stream.

use vstd::prelude::*;
use crate::inbound::pair_views;

verus! {

/// The options of an encryption.
#[derive(PartialEq, Eq, Debug)]
pub struct EncryptOptions {
    pub key_name: String,
    pub key_wrap_algorithm: String,
    pub data_encryption_cipher: Option<String>,
    pub omit_decryption_key_name: Option<bool>,
    pub decryption_key_name: Option<String>,
}

/// `(name, value)` when the value is there.
pub open spec fn optional_header(name: Seq<char>, value: Option<String>) -> Seq<(Seq<char>, Seq<char>)> {
    match value {
        Some(v) => seq![(name, v@)],
        None => Seq::empty(),
    }
}

/// The headers of an HTTP encrypt request.
pub open spec fn encrypt_headers_of(options: EncryptOptions) -> Seq<(Seq<char>, Seq<char>)> {
    seq![
        ("content-type"@, "application/octet-stream"@),
        ("dapr-key-name"@, options.key_name@),
        ("dapr-key-wrap-algorithm"@, options.key_wrap_algorithm@),
    ] + optional_header("dapr-data-encryption-cipher"@, options.data_encryption_cipher) + (
    if options.omit_decryption_key_name == Some(true) {
        seq![("dapr-omit-decryption-key-name"@, "true"@)]
    } else {
        Seq::empty()
    }) + optional_header("dapr-decryption-key-name"@, options.decryption_key_name)
}

fn push_pair(headers: &mut Vec<(String, String)>, name: &str, value: String)
    ensures
        pair_views(final(headers)@) == pair_views(old(headers)@).push((name@, value@)),
{
    let ghost pre = pair_views(headers@);
    let n = name.to_owned();
    headers.push((n, value));
    assert(pair_views(headers@) =~= pre.push((n@, value@)));
}

/// Build the headers of an HTTP encrypt request from its options.
pub fn encrypt_headers(options: EncryptOptions) -> (h: Vec<(String, String)>)
    ensures
        pair_views(h@) == encrypt_headers_of(options),
{
    let ghost opts = options;
    let mut h: Vec<(String, String)> = Vec::new();
    push_pair(&mut h, "content-type", "application/octet-stream".to_owned());
    push_pair(&mut h, "dapr-key-name", options.key_name);
    push_pair(&mut h, "dapr-key-wrap-algorithm", options.key_wrap_algorithm);
    let ghost base = pair_views(h@);
    if let Some(cipher) = options.data_encryption_cipher {
        push_pair(&mut h, "dapr-data-encryption-cipher", cipher);
    }
    let ghost with_cipher = pair_views(h@);
    if options.omit_decryption_key_name == Some(true) {
        push_pair(&mut h, "dapr-omit-decryption-key-name", "true".to_owned());
    }
    let ghost with_omit = pair_views(h@);
    if let Some(key) = options.decryption_key_name {
        push_pair(&mut h, "dapr-decryption-key-name", key);
    }
    assert(pair_views(h@) =~= encrypt_headers_of(opts));
    h
}

/// Build the headers of an HTTP decrypt request.
pub fn decrypt_headers(key_name: Option<String>) -> (h: Vec<(String, String)>)
    ensures
        pair_views(h@) == seq![("content-type"@, "application/octet-stream"@)] + optional_header(
            "dapr-key-name"@,
            key_name,
        ),
{
    let ghost k = key_name;
    let mut h: Vec<(String, String)> = Vec::new();
    push_pair(&mut h, "content-type", "application/octet-stream".to_owned());
    if let Some(key) = key_name {
        push_pair(&mut h, "dapr-key-name", key);
    }
    assert(pair_views(h@) =~= seq![("content-type"@, "application/octet-stream"@)] + optional_header(
        "dapr-key-name"@,
        k,
    ));
    h
}

// ---------------------------------------------------------------------------
// Reassembling a response stream

/// The data of the chunks, concatenated in order.
pub open spec fn flat(chunks: Seq<(u64, Vec<u8>)>) -> Seq<u8>
    decreases chunks.len(),
{
    if chunks.len() == 0 {
        Seq::empty()
    } else {
        flat(chunks.drop_last()) + chunks.last().1@
    }
}

/// The smallest sequence number of non-empty `chunks`.
pub open spec fn min_seq(chunks: Seq<(u64, Vec<u8>)>) -> u64
    recommends
        chunks.len() > 0,
    decreases chunks.len(),
{
    if chunks.len() <= 1 {
        chunks[0].0
    } else {
        let m = min_seq(chunks.drop_last());
        if chunks.last().0 < m {
            chunks.last().0
        } else {
            m
        }
    }
}

/// The chunks numbered `n`, in arrival order.
pub open spec fn numbered(chunks: Seq<(u64, Vec<u8>)>, n: u64) -> Seq<(u64, Vec<u8>)> {
    chunks.filter(|c: (u64, Vec<u8>)| c.0 == n)
}

/// The chunks not numbered `n`, in arrival order.
pub open spec fn not_numbered(chunks: Seq<(u64, Vec<u8>)>, n: u64) -> Seq<(u64, Vec<u8>)> {
    chunks.filter(|c: (u64, Vec<u8>)| c.0 != n)
}

proof fn lemma_min_seq_present(chunks: Seq<(u64, Vec<u8>)>)
    requires
        chunks.len() > 0,
    ensures
        exists|i: int| 0 <= i < chunks.len() && chunks[i].0 == min_seq(chunks),
        forall|i: int| 0 <= i < chunks.len() ==> min_seq(chunks) <= #[trigger] chunks[i].0,
    decreases chunks.len(),
{
    if chunks.len() == 1 {
        assert(chunks[0].0 == min_seq(chunks));
    } else {
        lemma_min_seq_present(chunks.drop_last());
        let m = min_seq(chunks.drop_last());
        let i = choose|i: int| 0 <= i < chunks.drop_last().len() && chunks.drop_last()[i].0 == m;
        assert(chunks[i].0 == m);
        if chunks.last().0 < m {
            assert(chunks[chunks.len() - 1].0 == min_seq(chunks));
        } else {
            assert(chunks[i].0 == min_seq(chunks));
        }
        assert forall|j: int| 0 <= j < chunks.len() implies min_seq(chunks) <= #[trigger] chunks[j].0 by {
            if j < chunks.len() - 1 {
                assert(chunks.drop_last()[j] == chunks[j]);
            }
        }
    }
}

proof fn lemma_not_numbered_len(chunks: Seq<(u64, Vec<u8>)>, n: u64)
    ensures
        not_numbered(chunks, n).len() <= chunks.len(),
    decreases chunks.len(),
{
    if chunks.len() > 0 {
        unfold_not_numbered(chunks, n);
        lemma_not_numbered_len(chunks.drop_last(), n);
    }
}

/// One step of the chunk filters.
proof fn unfold_not_numbered(chunks: Seq<(u64, Vec<u8>)>, n: u64)
    requires
        chunks.len() > 0,
    ensures
        not_numbered(chunks, n) == if chunks.last().0 != n {
            not_numbered(chunks.drop_last(), n).push(chunks.last())
        } else {
            not_numbered(chunks.drop_last(), n)
        },
        numbered(chunks, n) == if chunks.last().0 == n {
            numbered(chunks.drop_last(), n).push(chunks.last())
        } else {
            numbered(chunks.drop_last(), n)
        },
{
    reveal_with_fuel(Seq::filter, 2);
}

proof fn lemma_filter_shorter(chunks: Seq<(u64, Vec<u8>)>, n: u64)
    requires
        exists|i: int| 0 <= i < chunks.len() && chunks[i].0 == n,
    ensures
        not_numbered(chunks, n).len() < chunks.len(),
    decreases chunks.len(),
{
    unfold_not_numbered(chunks, n);
    if chunks.last().0 != n {
        let i = choose|i: int| 0 <= i < chunks.len() && chunks[i].0 == n;
        assert(chunks.drop_last()[i].0 == n);
        lemma_filter_shorter(chunks.drop_last(), n);
    } else {
        lemma_not_numbered_len(chunks.drop_last(), n);
    }
}

/// The payload of a response stream: the data of the chunks with the
/// smallest sequence number first (in arrival order among equals), then
/// the payload of the others.
pub open spec fn payload(chunks: Seq<(u64, Vec<u8>)>) -> Seq<u8>
    decreases chunks.len(),
{
    if chunks.len() == 0 {
        Seq::empty()
    } else {
        let m = min_seq(chunks);
        if not_numbered(chunks, m).len() < chunks.len() {
            flat(numbered(chunks, m)) + payload(not_numbered(chunks, m))
        } else {
            Seq::empty()
        }
    }
}

fn smallest_seq(chunks: &Vec<(u64, Vec<u8>)>) -> (m: u64)
    requires
        chunks@.len() > 0,
    ensures
        m == min_seq(chunks@),
{
    let mut m = chunks[0].0;
    let mut i: usize = 1;
    assert(chunks@.take(1).len() == 1);
    while i < chunks.len()
        invariant
            1 <= i <= chunks@.len(),
            m == min_seq(chunks@.take(i as int)),
        decreases chunks.len() - i,
    {
        assert(chunks@.take(i + 1).drop_last() =~= chunks@.take(i as int));
        if chunks[i].0 < m {
            m = chunks[i].0;
        }
        i += 1;
    }
    assert(chunks@.take(chunks@.len() as int) =~= chunks@);
    m
}

/// Reassemble the payload of a response stream from its `(seq, data)`
/// chunks: the data in `seq` order, chunks with equal numbers in the order
/// they arrived (a stable sort by `seq`, then concatenation).
pub fn collect_payload(chunks: Vec<(u64, Vec<u8>)>) -> (out: Vec<u8>)
    ensures
        out@ == payload(chunks@),
{
    let mut rest = chunks;
    let mut out: Vec<u8> = Vec::new();
    let ghost all = rest@;
    while rest.len() > 0
        invariant
            payload(all) == out@ + payload(rest@),
        decreases rest@.len(),
    {
        let m = smallest_seq(&rest);
        proof {
            lemma_min_seq_present(rest@);
            lemma_filter_shorter(rest@, m);
        }
        let ghost before = rest@;
        let mut others: Vec<(u64, Vec<u8>)> = Vec::new();
        let mut taken: Vec<(u64, Vec<u8>)> = Vec::new();
        let ghost old_out = out@;
        let mut j: usize = 0;
        assert(before.subrange(0, before.len() as int) =~= before);
        while rest.len() > 0
            invariant
                j <= before.len(),
                before.len() <= usize::MAX,
                rest@ == before.subrange(j as int, before.len() as int),
                others@ == not_numbered(before.take(j as int), m),
                taken@ == numbered(before.take(j as int), m),
                out@ == old_out + flat(taken@),
            decreases rest@.len(),
        {
            assert(before.take(j + 1).drop_last() =~= before.take(j as int));
            assert(before.take(j + 1).last() == before[j as int]);
            proof {
                unfold_not_numbered(before.take(j + 1), m);
            }
            let chunk = rest.remove(0);
            assert(rest@ =~= before.subrange(j + 1, before.len() as int));
            if chunk.0 == m {
                let ghost pre_taken = taken@;
                let mut k: usize = 0;
                let ghost out0 = out@;
                while k < chunk.1.len()
                    invariant
                        k <= chunk.1@.len(),
                        out@ == out0 + chunk.1@.take(k as int),
                    decreases chunk.1.len() - k,
                {
                    out.push(chunk.1[k]);
                    k += 1;
                    assert(out@ =~= out0 + chunk.1@.take(k as int));
                }
                assert(chunk.1@.take(chunk.1@.len() as int) =~= chunk.1@);
                taken.push(chunk);
                assert(taken@.drop_last() =~= pre_taken);
            } else {
                others.push(chunk);
            }
            j += 1;
        }
        assert(before.take(j as int) =~= before);
        rest = others;
    }
    out
}

} // verus!
