//! Durations and timestamps between the WIT strings and the proto
//! `Duration`/`Timestamp` messages.

use vstd::prelude::*;
use crate::protobuf::{all_digits, digits_value};
use crate::text::{chars_of, concat, decimal, decimal_seq, push_char, trim_end_char, trim_end_matches};

verus! {

/// `n` zeros.
pub open spec fn zeros(n: nat) -> Seq<char>
    decreases n,
{
    if n == 0 {
        Seq::empty()
    } else {
        zeros((n - 1) as nat).push('0')
    }
}

/// `{:09}`: the decimal digits of `n`, zero-padded to at least nine.
pub open spec fn padded9(n: nat) -> Seq<char> {
    let d = decimal_seq(n);
    if d.len() < 9 {
        zeros((9 - d.len()) as nat) + d
    } else {
        d
    }
}

proof fn lemma_decimal_len_bound(n: nat, k: nat)
    requires
        1 <= k,
        n < pow10(k),
    ensures
        decimal_seq(n).len() <= k,
    decreases k,
{
    if n >= 10 {
        if k == 1 {
            assert(pow10(1) == 10) by {
                reveal_with_fuel(pow10, 2);
            }
        } else {
            assert(pow10(k) == 10 * pow10((k - 1) as nat));
            assert(n / 10 < pow10((k - 1) as nat));
            lemma_decimal_len_bound(n / 10, (k - 1) as nat);
        }
    }
}

proof fn lemma_zeros_digits(z: nat)
    ensures
        zeros(z).len() == z,
        all_digits(zeros(z)),
        digits_value(zeros(z)) == 0,
    decreases z,
{
    if z > 0 {
        lemma_zeros_digits((z - 1) as nat);
        let a = zeros((z - 1) as nat);
        assert(zeros(z).drop_last() =~= a);
        assert forall|i: int| 0 <= i < zeros(z).len() implies '0' <= #[trigger] zeros(z)[i] <= '9' by {
            if i < a.len() {
                assert(zeros(z)[i] == a[i]);
            }
        }
    }
}

/// Leading zeros do not change what digits read as.
proof fn lemma_leading_zeros(z: nat, d: Seq<char>)
    ensures
        digits_value(zeros(z) + d) == digits_value(d),
    decreases d.len(),
{
    if d.len() == 0 {
        assert(zeros(z) + d =~= zeros(z));
        lemma_zeros_digits(z);
    } else {
        assert((zeros(z) + d).drop_last() =~= zeros(z) + d.drop_last());
        lemma_leading_zeros(z, d.drop_last());
    }
}

/// The fraction of a duration's text reads back as its nanoseconds: for
/// any count of nanoseconds below a second, the zero-padded rendering has
/// exactly nine digits, and those digits read as the count.
pub proof fn lemma_padded9_reads_back(n: nat)
    requires
        n < 1_000_000_000,
    ensures
        padded9(n).len() == 9,
        all_digits(padded9(n)),
        digits_value(padded9(n)) == n,
{
    let d = decimal_seq(n);
    crate::counter::lemma_decimal_digits(n);
    assert(pow10(9) == 1_000_000_000) by {
        reveal_with_fuel(pow10, 10);
    }
    lemma_decimal_len_bound(n, 9);
    if d.len() < 9 {
        let z = (9 - d.len()) as nat;
        lemma_zeros_digits(z);
        lemma_leading_zeros(z, d);
        let p = zeros(z) + d;
        assert forall|i: int| 0 <= i < p.len() implies '0' <= #[trigger] p[i] <= '9' by {
            if i < z {
                assert(p[i] == zeros(z)[i]);
            } else {
                assert(p[i] == d[i - z]);
            }
        }
    }
}

/// A Go-style duration string of a proto `Duration`: whole seconds, then
/// the nanoseconds as a fraction without trailing zeros when there are
/// any, then `s`. Negative fields count as zero.
pub open spec fn interval_text(seconds: i64, nanos: i32) -> Seq<char> {
    let s: nat = if seconds < 0 { 0 } else { seconds as nat };
    let n: nat = if nanos < 0 { 0 } else { nanos as nat };
    if n == 0 {
        decimal_seq(s) + seq!['s']
    } else {
        decimal_seq(s) + seq!['.'] + trim_end_char(padded9(n), '0') + seq!['s']
    }
}

/// Trailing zeros come off as a run of zeros, and what is left does not
/// end in one.
proof fn lemma_trim_zeros(p: Seq<char>) -> (k: nat)
    ensures
        p == trim_end_char(p, '0') + zeros(k),
        trim_end_char(p, '0').len() > 0 ==> trim_end_char(p, '0').last() != '0',
    decreases p.len(),
{
    if p.len() > 0 && p.last() == '0' {
        let k0 = lemma_trim_zeros(p.drop_last());
        let t = trim_end_char(p, '0');
        assert(p =~= p.drop_last().push('0'));
        assert(t + zeros(k0 + 1) =~= (t + zeros(k0)).push('0'));
        k0 + 1
    } else {
        assert(p + zeros(0) =~= p);
        0
    }
}

/// Appending zeros multiplies what the digits read as by ten for each.
proof fn lemma_append_zeros_value(t: Seq<char>, k: nat)
    ensures
        digits_value(t + zeros(k)) == digits_value(t) * pow10(k),
    decreases k,
{
    if k == 0 {
        assert(t + zeros(0) =~= t);
        assert(pow10(0) == 1);
    } else {
        lemma_append_zeros_value(t, (k - 1) as nat);
        let a = t + zeros((k - 1) as nat);
        assert(t + zeros(k) =~= a.push('0'));
        let b = a.push('0');
        assert(b.drop_last() =~= a);
        assert(b.last() == '0');
        assert(digits_value(b) == digits_value(a) * 10);
        let v = digits_value(t);
        let q = pow10((k - 1) as nat);
        assert(digits_value(a) == v * q);
        assert(pow10(k) == 10 * q);
        assert((v * q) * 10 == v * (10 * q)) by (nonlinear_arith);
        assert(digits_value(t + zeros(k)) == digits_value(b));
        assert(digits_value(t + zeros(k)) == v * pow10(k));
    }
}

/// A proto `Duration` written as text reads back as the same duration:
/// the whole seconds in decimal, then, when there are nanoseconds, a `.`
/// and at most nine digits without a trailing zero whose value, scaled to
/// nine places, is the nanoseconds; then `s`.
pub proof fn lemma_interval_text_reads_back(seconds: i64, nanos: i32)
    requires
        seconds >= 0,
        0 <= nanos < 1_000_000_000,
    ensures
        digits_value(decimal_seq(seconds as nat)) == seconds,
        all_digits(decimal_seq(seconds as nat)),
        nanos == 0 ==> interval_text(seconds, nanos) == decimal_seq(seconds as nat) + seq!['s'],
        nanos > 0 ==> exists|f: Seq<char>| {
            &&& interval_text(seconds, nanos) == decimal_seq(seconds as nat) + seq!['.'] + f + seq!['s']
            &&& 1 <= f.len() <= 9
            &&& all_digits(f)
            &&& f.last() != '0'
            &&& digits_value(f) * pow10((9 - f.len()) as nat) == nanos
        },
{
    crate::counter::lemma_decimal_digits(seconds as nat);
    if nanos > 0 {
        let n = nanos as nat;
        lemma_padded9_reads_back(n);
        let p = padded9(n);
        let f = trim_end_char(p, '0');
        let k = lemma_trim_zeros(p);
        lemma_append_zeros_value(f, k);
        lemma_zeros_digits(k);
        if f.len() == 0 {
            assert(p =~= zeros(k));
            lemma_zeros_digits(k);
        }
        assert(f.len() + k == 9);
        assert forall|i: int| 0 <= i < f.len() implies '0' <= #[trigger] f[i] <= '9' by {
            assert(f[i] == p[i]);
        }
        assert(interval_text(seconds, nanos) == decimal_seq(seconds as nat) + seq!['.'] + f + seq!['s']);
    }
}

fn padded9_of(n: u64) -> (r: String)
    ensures
        r@ == padded9(n as nat),
{
    let d = decimal(n);
    let len = d.as_str().unicode_len();
    if len < 9 {
        let mut r = String::new();
        let mut k: usize = 0;
        while k < 9 - len
            invariant
                k <= 9 - len,
                len == d@.len(),
                len < 9,
                r@ == zeros(k as nat),
            decreases 9 - len - k,
        {
            push_char(&mut r, '0');
            k += 1;
        }
        concat(r.as_str(), d.as_str())
    } else {
        d
    }
}

/// Render a proto `Duration` as a Go-parseable string ("90s", "1.5s").
pub fn interval_wit(seconds: i64, nanos: i32) -> (r: String)
    ensures
        r@ == interval_text(seconds, nanos),
{
    let s: u64 = if seconds < 0 { 0 } else { seconds as u64 };
    let n: u64 = if nanos < 0 { 0 } else { nanos as u64 };
    let mut text = decimal(s);
    if n != 0 {
        push_char(&mut text, '.');
        let fraction = padded9_of(n);
        text = concat(text.as_str(), trim_end_matches(fraction.as_str(), '0').as_str());
    }
    push_char(&mut text, 's');
    text
}

// ---------------------------------------------------------------------------
// A bound on what a duration text can stand for
//
// `humantime::parse_duration` reads a number as its digits up to a unit
// letter or a `.`, skipping whitespace between them, then adds the number
// times its unit to a `Duration`, and panics when the seconds reach
// `u64::MAX` with a whole second of nanoseconds pending. The bound below
// counts, in milliseconds, at most what each number can add, so a text
// whose bound stays below `u64::MAX` seconds never reaches that panic.

/// `10^n`.
pub open spec fn pow10(n: nat) -> nat
    decreases n,
{
    if n == 0 {
        1
    } else {
        10 * pow10((n - 1) as nat)
    }
}

/// The most milliseconds one unit of a duration can stand for: a year of
/// 365.25 days, plus one second.
pub const UNIT_MILLIS: u128 = 31_557_601_000;

/// The milliseconds bound the texts in range stay below: `u64::MAX` seconds.
pub const MILLIS_LIMIT: u128 = 18_446_744_073_709_551_615_000;

/// A character that ends the digits of a number: a unit letter or the
/// decimal point. Any other character (whitespace among them) leaves the
/// digits around it counted as one number.
pub open spec fn ends_number(c: char) -> bool {
    ('a' <= c <= 'z') || ('A' <= c <= 'Z') || c == 'µ' || c == '.'
}

/// The most milliseconds one unit can stand for, the unit's word beginning
/// `s` (`s[0]` is the character that ended the number): 1 below a second
/// (`ns`, `nanos`, `nsec`, `us`, `usec`, `µs`, `ms`, `msec`), a minute for
/// `m` and the words it begins other than `ms…` and `mo…` (`millis` is
/// less), a month for `mo…` and `M…`, a second, hour, day or week for `s`,
/// `h`, `d`, `w`; a year and a second for anything else (a `.`, a `y…`, or
/// a word that names no unit).
pub open spec fn unit_millis(s: Seq<char>) -> nat {
    if s[0] == 'n' || s[0] == 'u' || s[0] == 'µ' {
        1
    } else if s[0] == 'm' {
        if s.len() > 1 && s[1] == 's' {
            1
        } else if s.len() > 1 && s[1] == 'o' {
            2_630_016_000
        } else {
            60_000
        }
    } else if s[0] == 'M' {
        2_630_016_000
    } else if s[0] == 's' {
        1_000
    } else if s[0] == 'h' {
        3_600_000
    } else if s[0] == 'd' {
        86_400_000
    } else if s[0] == 'w' {
        604_800_000
    } else {
        UNIT_MILLIS as nat
    }
}

/// The milliseconds a number of `k` digits can add: it is below `10^k`,
/// and each unit counts at most `unit` milliseconds; a fraction adds less
/// than one unit.
pub open spec fn run_bound(k: nat, unit: nat) -> nat {
    if k == 0 {
        0
    } else {
        pow10(k) * unit
    }
}

/// The sum of the bounds of the numbers of `s`, the number before `s`
/// having `run` digits so far.
pub open spec fn digit_runs_bound(s: Seq<char>, run: nat) -> nat
    decreases s.len(),
{
    if s.len() == 0 {
        run_bound(run, UNIT_MILLIS as nat)
    } else if '0' <= s[0] <= '9' {
        digit_runs_bound(s.drop_first(), run + 1)
    } else if ends_number(s[0]) {
        run_bound(run, unit_millis(s)) + digit_runs_bound(s.drop_first(), 0)
    } else {
        digit_runs_bound(s.drop_first(), run)
    }
}

/// A duration text whose numbers can add less than `u64::MAX` seconds in
/// all, so that `humantime::parse_duration` returns on it.
pub open spec fn interval_in_range(s: Seq<char>) -> bool {
    digit_runs_bound(s, 0) < MILLIS_LIMIT
}

proof fn lemma_pow10_mono(a: nat, b: nat)
    requires
        a <= b,
    ensures
        pow10(a) <= pow10(b),
    decreases b,
{
    if a < b {
        lemma_pow10_mono(a, (b - 1) as nat);
    }
}

/// A pending number of `run` digits adds at least `10^run` (when it has any).
proof fn lemma_runs_bound_at_least(s: Seq<char>, run: nat)
    requires
        run > 0,
    ensures
        digit_runs_bound(s, run) >= pow10(run),
    decreases s.len(),
{
    if s.len() > 0 {
        if '0' <= s[0] <= '9' {
            lemma_runs_bound_at_least(s.drop_first(), run + 1);
            lemma_pow10_mono(run, run + 1);
        } else if !ends_number(s[0]) {
            lemma_runs_bound_at_least(s.drop_first(), run);
        } else {
            let u = unit_millis(s);
            assert(u >= 1);
            assert(pow10(run) * u >= pow10(run)) by (nonlinear_arith)
                requires
                    u >= 1,
            ;
        }
    } else {
        assert(pow10(run) * 31_557_601_000 >= pow10(run)) by (nonlinear_arith);
    }
}

fn unit_of(cs: &Vec<char>, i: usize) -> (u: u128)
    requires
        i < cs.len(),
    ensures
        u == unit_millis(cs@.subrange(i as int, cs@.len() as int)),
        1 <= u <= UNIT_MILLIS,
{
    let ghost rest = cs@.subrange(i as int, cs@.len() as int);
    assert(rest[0] == cs@[i as int]);
    assert(rest.len() > 1 ==> rest[1] == cs@[i + 1]);
    let c = cs[i];
    let next = if i + 1 < cs.len() { cs[i + 1] } else { ' ' };
    if c == 'n' || c == 'u' || c == 'µ' {
        1
    } else if c == 'm' {
        if i + 1 < cs.len() && next == 's' {
            1
        } else if i + 1 < cs.len() && next == 'o' {
            2_630_016_000
        } else {
            60_000
        }
    } else if c == 'M' {
        2_630_016_000
    } else if c == 's' {
        1_000
    } else if c == 'h' {
        3_600_000
    } else if c == 'd' {
        86_400_000
    } else if c == 'w' {
        604_800_000
    } else {
        UNIT_MILLIS
    }
}

/// Whether a duration text is in range (see [`interval_in_range`]).
pub fn interval_checked(text: &str) -> (b: bool)
    ensures
        b == interval_in_range(text@),
{
    let cs = chars_of(text);
    let ghost whole = cs@;
    let mut acc: u128 = 0;
    let mut run: u64 = 0;
    let mut p: u128 = 1;
    let mut i: usize = 0;
    proof {
        assert(cs@.subrange(0, cs@.len() as int) =~= whole);
        assert(pow10(23) == 100_000_000_000_000_000_000_000) by {
            reveal_with_fuel(pow10, 24);
        }
    }
    while i < cs.len()
        invariant
            cs@ == whole,
            whole == text@,
            i <= cs.len(),
            acc < MILLIS_LIMIT,
            run <= 22,
            p == pow10(run as nat),
            pow10(23) == 100_000_000_000_000_000_000_000,
            acc + digit_runs_bound(whole.subrange(i as int, whole.len() as int), run as nat)
                == digit_runs_bound(whole, 0),
        decreases cs.len() - i,
    {
        let ghost rest = whole.subrange(i as int, whole.len() as int);
        proof {
            assert(rest.drop_first() =~= whole.subrange(i + 1, whole.len() as int));
            lemma_pow10_mono(run as nat, 22);
            lemma_pow10_mono(22, 23);
        }
        let c = cs[i];
        if '0' <= c && c <= '9' {
            if run == 22 {
                proof {
                    lemma_runs_bound_at_least(rest.drop_first(), 23);
                }
                return false;
            }
            run = run + 1;
            p = p * 10;
        } else if ('a' <= c && c <= 'z') || ('A' <= c && c <= 'Z') || c == 'µ' || c == '.' {
            if run > 0 {
                let unit = unit_of(&cs, i);
                proof {
                    let pp: int = p as int;
                    let uu: int = unit as int;
                    assert(pp <= 100_000_000_000_000_000_000_000);
                    assert(uu <= 31_557_601_000);
                    assert(pp * uu <= 100_000_000_000_000_000_000_000 * 31_557_601_000) by (nonlinear_arith)
                        requires
                            0 <= pp <= 100_000_000_000_000_000_000_000,
                            0 <= uu <= 31_557_601_000,
                    ;
                }
                let add = p * unit;
                acc = acc + add;
                if acc >= MILLIS_LIMIT {
                    return false;
                }
            }
            run = 0;
            p = 1;
        }
        i = i + 1;
    }
    proof {
        assert(whole.subrange(i as int, whole.len() as int) =~= Seq::<char>::empty());
        lemma_pow10_mono(run as nat, 22);
        lemma_pow10_mono(22, 23);
    }
    if run > 0 {
        acc = acc + p * UNIT_MILLIS;
    }
    acc < MILLIS_LIMIT
}

/// What `humantime::parse_duration` gives for a text: whole seconds and
/// nanoseconds, or nothing when the text is not a duration.
pub uninterp spec fn humantime_duration(text: Seq<char>) -> Option<(u64, u32)>;

/// `humantime::parse_duration`, as whole seconds and the nanoseconds below
/// one second (a `std::time::Duration` keeps those under 10^9). Its
/// `Duration::new` panics when the seconds reach `u64::MAX` with a whole
/// second of nanoseconds pending; the texts in range (see
/// [`interval_in_range`]) stay below that many seconds.
#[verifier::external_body]
fn parse_duration(text: &str) -> (r: Option<(u64, u32)>)
    requires
        interval_in_range(text@),
    ensures
        r == humantime_duration(text@),
        r matches Some(d) ==> d.1 < 1_000_000_000,
{
    humantime::parse_duration(text).ok().map(|d| (d.as_secs(), d.subsec_nanos()))
}

/// The proto `Duration` (seconds, nanos) of a parsed duration, when its
/// seconds fit the proto's signed field.
pub open spec fn duration_fields(d: (u64, u32)) -> Option<(i64, i32)> {
    if d.0 <= i64::MAX as u64 && d.1 < 1_000_000_000 {
        Some((d.0 as i64, d.1 as i32))
    } else {
        None
    }
}

/// The proto `Duration` of a retry interval (`humantime` grammar); `None`
/// when the text is no duration or its seconds are out of the proto's range.
pub fn interval_pb(interval: &str) -> (r: Option<(i64, i32)>)
    requires
        interval_in_range(interval@),
    ensures
        r == match humantime_duration(interval@) {
            Some(d) => duration_fields(d),
            None => None,
        },
{
    match parse_duration(interval) {
        Some((secs, nanos)) => if secs <= i64::MAX as u64 {
            Some((secs as i64, nanos as i32))
        } else {
            None
        },
        None => None,
    }
}

/// The first second of the year 10000, which RFC 3339 cannot render.
pub const YEAR_10000: i64 = 253_402_300_800;

/// What `humantime::format_rfc3339` renders for the instant `secs` seconds
/// and `nanos` nanoseconds after the Unix epoch.
pub uninterp spec fn rfc3339_text(secs: u64, nanos: u32) -> Seq<char>;

/// `humantime::format_rfc3339` of the instant `secs` + `nanos` after the
/// epoch; it renders only instants before the year 10000.
#[verifier::external_body]
fn format_rfc3339(secs: u64, nanos: u32) -> (s: String)
    requires
        secs < 253_402_300_800,
        nanos < 1_000_000_000,
    ensures
        s@ == rfc3339_text(secs, nanos),
{
    let time = std::time::UNIX_EPOCH + std::time::Duration::new(secs, nanos);
    humantime::format_rfc3339(time).to_string()
}

/// A timestamp that is rendered: at or after the epoch, before the year
/// 10000, with non-negative nanoseconds.
pub open spec fn renderable(seconds: i64, nanos: i32) -> bool {
    0 <= seconds < YEAR_10000 && nanos >= 0
}

/// Render a proto timestamp as RFC 3339. A missing or pre-epoch timestamp
/// (or one past the year 9999) becomes `""`. Nanoseconds of a second or
/// more carry into the seconds, as `Duration::new` does.
pub fn rfc3339(timestamp: Option<(i64, i32)>) -> (r: String)
    requires
        match timestamp {
            Some(ts) => renderable(ts.0, ts.1) ==> ts.0 + ts.1 / 1_000_000_000 < YEAR_10000,
            None => true,
        },
    ensures
        match timestamp {
            Some(ts) => if renderable(ts.0, ts.1) {
                r@ == rfc3339_text(
                    (ts.0 + ts.1 / 1_000_000_000) as u64,
                    (ts.1 % 1_000_000_000) as u32,
                )
            } else {
                r@.len() == 0
            },
            None => r@.len() == 0,
        },
{
    match timestamp {
        Some((seconds, nanos)) => if 0 <= seconds && seconds < YEAR_10000 && nanos >= 0 {
            let secs = seconds as u64 + (nanos / 1_000_000_000) as u64;
            let sub = (nanos % 1_000_000_000) as u32;
            format_rfc3339(secs, sub)
        } else {
            String::new()
        },
        None => String::new(),
    }
}

} // verus!
