//! The order counter of the demo applications: a number kept as decimal
//! text in the state store and incremented with optimistic concurrency
//! (first-write etags), retrying on conflicts.

use vstd::prelude::*;
use crate::failure::{ErrorKind, lossy_utf8, utf8_lossy};
use crate::protobuf::{parse_integer, parsed_integer};
use crate::text::{bytes_of, concat, decimal, decimal_seq};
use crate::state::{Concurrency, Consistency, StateOptions};

verus! {

/// How many times an increment is attempted before giving up on conflicts.
pub const INCREMENT_ATTEMPTS: u32 = 16;

/// The text of a stored value (invalid UTF-8 replaced).
pub open spec fn stored_text(data: Seq<u8>) -> Seq<char> {
    if vstd::utf8::valid_utf8(data) {
        vstd::utf8::decode_utf8(data)
    } else {
        lossy_utf8(data)
    }
}

/// The counter a stored value holds: its text parsed as a `u64`, else 0.
pub open spec fn counter_of(data: Seq<u8>) -> u64 {
    match parsed_integer(stored_text(data), 0, 0xffff_ffff_ffff_ffff, false) {
        Some(v) => v as u64,
        None => 0,
    }
}

/// Read the counter from a stored value.
pub fn parse_counter(data: &[u8]) -> (n: u64)
    ensures
        n == counter_of(data@),
{
    let text = utf8_lossy(data);
    match parse_integer(text.as_str(), 0, 0xffff_ffff_ffff_ffff, false) {
        Some(v) => v as u64,
        None => 0,
    }
}

/// The counter as the demo reads it: 0 when nothing is stored.
pub fn read_counter(current: Option<&[u8]>) -> (n: u64)
    ensures
        match current {
            Some(d) => n == counter_of(d@),
            None => n == 0,
        },
{
    match current {
        Some(d) => parse_counter(d),
        None => 0,
    }
}

/// The value stored by an increment: the next count as decimal text.
pub fn next_counter_value(count: u64) -> (v: Vec<u8>)
    requires
        count < u64::MAX,
    ensures
        v@ == vstd::utf8::encode_utf8(decimal_seq((count + 1) as nat)),
{
    bytes_of(decimal(count + 1).as_str())
}

/// The state store the demo counter lives in.
pub const COUNTER_STORE: &'static str = "statestore";

/// The key of the demo counter.
pub const COUNTER_KEY: &'static str = "processed-count";

/// The save one round of an increment makes: the counter key, the next
/// count, the etag read, first-write concurrency and strong consistency.
pub struct CounterSave {
    pub key: String,
    pub value: Vec<u8>,
    pub etag: Option<String>,
    pub options: StateOptions,
}

/// The count a round starts from: what is stored, 0 when nothing is.
pub open spec fn current_count(current: Option<(Seq<u8>, Option<String>)>) -> u64 {
    match current {
        Some((d, _)) => counter_of(d),
        None => 0,
    }
}

/// The save of one increment round, given what the round read (the stored
/// value and its etag, if anything is stored).
pub fn counter_save(current: Option<(Vec<u8>, Option<String>)>) -> (s: CounterSave)
    requires
        current_count(match current { Some((d, e)) => Some((d@, e)), None => None }) < u64::MAX,
    ensures
        s.key@ == "processed-count"@,
        s.value@ == vstd::utf8::encode_utf8(decimal_seq(
            (current_count(match current { Some((d, e)) => Some((d@, e)), None => None }) + 1) as nat,
        )),
        s.etag == match current { Some((_, e)) => e, None => None },
        s.options == (StateOptions { concurrency: Concurrency::FirstWrite, consistency: Consistency::Strong }),
{
    let (count, etag) = match current {
        Some((d, e)) => (parse_counter(d.as_slice()), e),
        None => (0, None),
    };
    let key = concat("processed-count", "");
    proof {
        reveal_strlit("");
        assert(key@ =~= "processed-count"@);
    }
    CounterSave {
        key,
        value: next_counter_value(count),
        etag,
        options: StateOptions { concurrency: Concurrency::FirstWrite, consistency: Consistency::Strong },
    }
}

/// What an increment does after the `attempt`-th save (counting from 1).
#[derive(PartialEq, Eq, Structural, Clone, Copy, Debug)]
pub enum IncrementStep {
    /// The save went through.
    Done,
    /// Another writer came first: read and try again.
    Retry,
    /// Too many conflicts in a row.
    TooManyConflicts,
    /// The save failed for another reason; report it.
    Fail,
}

/// A conflict (`aborted`, or `internal` as some stores report an etag
/// mismatch) is retried while attempts remain; any other failure ends the
/// increment.
pub open spec fn increment_step_of(attempt: u32, saved: Option<ErrorKind>) -> IncrementStep {
    match saved {
        None => IncrementStep::Done,
        Some(k) => if k == ErrorKind::Aborted || k == ErrorKind::Internal {
            if attempt < INCREMENT_ATTEMPTS {
                IncrementStep::Retry
            } else {
                IncrementStep::TooManyConflicts
            }
        } else {
            IncrementStep::Fail
        },
    }
}

/// Decide what follows a save; `saved` is the kind of its error, if any.
pub fn after_save(attempt: u32, saved: Option<ErrorKind>) -> (s: IncrementStep)
    ensures
        s == increment_step_of(attempt, saved),
{
    match saved {
        None => IncrementStep::Done,
        Some(k) => if k == ErrorKind::Aborted || k == ErrorKind::Internal {
            if attempt < INCREMENT_ATTEMPTS {
                IncrementStep::Retry
            } else {
                IncrementStep::TooManyConflicts
            }
        } else {
            IncrementStep::Fail
        },
    }
}

/// An increment makes at most `INCREMENT_ATTEMPTS` saves.
pub proof fn lemma_increment_bounded(attempt: u32, saved: Option<ErrorKind>)
    requires
        attempt >= INCREMENT_ATTEMPTS,
    ensures
        increment_step_of(attempt, saved) != IncrementStep::Retry,
{
}

/// A counter written by an increment reads back as the next count.
pub proof fn lemma_counter_roundtrip(count: u64)
    requires
        count < u64::MAX,
    ensures
        counter_of(vstd::utf8::encode_utf8(decimal_seq((count + 1) as nat))) == count + 1,
{
    let text = decimal_seq((count + 1) as nat);
    vstd::utf8::encode_utf8_valid_utf8(text);
    vstd::utf8::encode_utf8_decode_utf8(text);
    lemma_parse_decimal((count + 1) as nat);
}

/// Parsing the decimal rendering of a `u64` gives the number back.
proof fn lemma_parse_decimal(n: nat)
    requires
        n <= u64::MAX,
    ensures
        parsed_integer(decimal_seq(n), 0, 0xffff_ffff_ffff_ffff, false) == Some(n as int),
{
    lemma_decimal_digits(n);
}

pub(crate) proof fn lemma_decimal_digits(n: nat)
    ensures
        decimal_seq(n).len() > 0,
        crate::protobuf::all_digits(decimal_seq(n)),
        crate::protobuf::digits_value(decimal_seq(n)) == n,
    decreases n,
{
    let s = decimal_seq(n);
    if n < 10 {
        assert(s.drop_last() =~= Seq::<char>::empty());
        assert((crate::text::digit_char(n) as int) == 48 + n);
        assert(crate::protobuf::digits_value(s) == crate::protobuf::digits_value(s.drop_last()) * 10
            + ((s.last() as int) - 48) as nat);
        assert(crate::protobuf::digits_value(s.drop_last()) == 0);
    } else {
        lemma_decimal_digits(n / 10);
        let p = decimal_seq(n / 10);
        assert(s == p.push(crate::text::digit_char(n % 10)));
        assert(s.drop_last() =~= p);
        assert((crate::text::digit_char(n % 10) as int) == 48 + n % 10);
        assert(crate::protobuf::digits_value(s) == crate::protobuf::digits_value(p) * 10 + n % 10);
        assert((n / 10) * 10 + n % 10 == n) by (nonlinear_arith);
        assert forall|i: int| 0 <= i < s.len() implies '0' <= #[trigger] s[i] <= '9' by {
            if i < p.len() {
                assert(s[i] == p[i]);
            }
        }
    }
}

} // verus!
