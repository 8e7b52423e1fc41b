use vstd::prelude::*;

verus! {

/// The age, in seconds, a spool file must reach before it is sent again.
pub const RETRY_DELAY_SECS: u64 = 15;

/// The directory of the retry spool.
pub const SPOOL_DIR: &'static str = "/tmp/logdna/";

pub assume_specification[ String::push ](s: &mut String, ch: char)
    ensures
        final(s)@ == old(s)@.push(ch),
;

/// Whether `uuid` accepts `s` as the text of a UUID.
pub uninterp spec fn is_uuid(s: Seq<char>) -> bool;

/// Relies on `uuid::Uuid::parse_str`: it accepts exactly the texts of UUIDs
/// in the forms it knows, which depends on the text alone.
#[verifier::external_body]
fn uuid_valid(s: &str) -> (r: bool)
    ensures
        r == is_uuid(s@),
{
    uuid::Uuid::parse_str(s).is_ok()
}

/// The character of decimal digit `d`.
pub open spec fn digit_char(d: nat) -> char {
    if d == 0 { '0' }
    else if d == 1 { '1' }
    else if d == 2 { '2' }
    else if d == 3 { '3' }
    else if d == 4 { '4' }
    else if d == 5 { '5' }
    else if d == 6 { '6' }
    else if d == 7 { '7' }
    else if d == 8 { '8' }
    else { '9' }
}

/// Whether `c` is a decimal digit.
pub open spec fn is_digit(c: char) -> bool {
    '0' <= c <= '9'
}

/// The value of decimal digit `c`.
pub open spec fn digit_value(c: char) -> nat {
    (c as u32 - '0' as u32) as nat
}

/// `n` written in decimal, without leading zeros.
pub open spec fn decimal(n: nat) -> Seq<char>
    decreases n,
{
    if n < 10 {
        seq![digit_char(n)]
    } else {
        decimal(n / 10).push(digit_char(n % 10))
    }
}

/// The number that the decimal digits `s` stand for.
pub open spec fn value_of(s: Seq<char>) -> nat
    decreases s.len(),
{
    if s.len() == 0 {
        0
    } else {
        value_of(s.drop_last()) * 10 + digit_value(s.last())
    }
}

/// The suffix of spool file names.
pub open spec fn retry_suffix() -> Seq<char> {
    seq!['.', 'r', 'e', 't', 'r', 'y']
}

/// The name of the spool file made at `ts` (seconds since the epoch) with
/// the unique id `id`: `{ts}_{id}.retry`.
pub open spec fn spool_name(ts: nat, id: Seq<char>) -> Seq<char> {
    decimal(ts) + seq!['_'] + id + retry_suffix()
}

/// Index of the first `_` in `s`, or `s.len()` when there is none.
pub open spec fn first_underscore(s: Seq<char>, i: int) -> int
    decreases s.len() - i,
{
    if i >= s.len() {
        s.len() as int
    } else if s[i] == '_' {
        i
    } else {
        first_underscore(s, i + 1)
    }
}

/// The timestamp that spool file name `s` carries, if `s` has the form
/// `{ts}_{uuid}.retry`: digits up to the first `_`, fitting in 64 bits, then
/// a UUID, then the suffix.
pub open spec fn parse_spool_name(s: Seq<char>) -> Option<u64> {
    let u = first_underscore(s, 0);
    let digits = s.subrange(0, u);
    let id = s.subrange(u + 1, s.len() - 6);
    if u < s.len() && 0 < u && u + 7 <= s.len() && (forall|k: int|
        0 <= k < u ==> is_digit(#[trigger] s[k])) && value_of(digits) <= u64::MAX && s.subrange(
        s.len() - 6,
        s.len() as int,
    ) == retry_suffix() && is_uuid(id) {
        Some(value_of(digits) as u64)
    } else {
        None
    }
}

fn digit_of(d: u64) -> (c: char)
    requires
        d < 10,
    ensures
        c == digit_char(d as nat),
        is_digit(c),
        digit_value(c) == d,
{
    if d == 0 { '0' }
    else if d == 1 { '1' }
    else if d == 2 { '2' }
    else if d == 3 { '3' }
    else if d == 4 { '4' }
    else if d == 5 { '5' }
    else if d == 6 { '6' }
    else if d == 7 { '7' }
    else if d == 8 { '8' }
    else { '9' }
}

/// `n` in decimal.
pub fn to_decimal(n: u64) -> (r: String)
    ensures
        r@ == decimal(n as nat),
{
    let mut digits: Vec<char> = Vec::new();
    let mut m = n;
    loop
        invariant_except_break
            decimal(n as nat) == decimal(m as nat) + digits@.reverse(),
        ensures
            decimal(n as nat) == digits@.reverse(),
        decreases m,
    {
        let c = digit_of(m % 10);
        proof {
            assert(decimal(m as nat) == if m < 10 { seq![c] } else { decimal((m / 10) as nat).push(c) });
        }
        if m < 10 {
            digits.push(c);
            proof {
                assert(digits@.reverse() =~= seq![c] + digits@.drop_last().reverse());
            }
            break;
        }
        digits.push(c);
        proof {
            assert(digits@.reverse() =~= seq![c] + digits@.drop_last().reverse());
            assert(decimal((m / 10) as nat).push(c) + digits@.drop_last().reverse() =~= decimal(
                (m / 10) as nat,
            ) + digits@.reverse());
        }
        m = m / 10;
    }
    let mut r = String::new();
    let mut i: usize = digits.len();
    while i > 0
        invariant
            i <= digits@.len(),
            r@ == digits@.reverse().subrange(0, digits@.len() - i),
            decimal(n as nat) == digits@.reverse(),
        decreases i,
    {
        i = i - 1;
        r.push(digits[i]);
        proof {
            assert(r@ =~= digits@.reverse().subrange(0, digits@.len() - i));
        }
    }
    proof {
        assert(r@ =~= digits@.reverse());
    }
    r
}

/// The name of the spool file made at `ts` with the unique id `id`.
pub fn spool_file_name(ts: u64, id: &str) -> (r: String)
    ensures
        r@ == spool_name(ts as nat, id@),
{
    let mut r = to_decimal(ts);
    r.push('_');
    r.append(id);
    r.push('.');
    r.push('r');
    r.push('e');
    r.push('t');
    r.push('r');
    r.push('y');
    proof {
        assert(r@ =~= spool_name(ts as nat, id@));
    }
    r
}

proof fn lemma_first_underscore_skip(s: Seq<char>, i: int, j: int)
    requires
        0 <= i <= j <= s.len(),
        forall|k: int| i <= k < j ==> s[k] != '_',
    ensures
        first_underscore(s, i) == first_underscore(s, j),
    decreases j - i,
{
    if i < j {
        lemma_first_underscore_skip(s, i + 1, j);
    }
}

proof fn lemma_first_underscore_bounds(s: Seq<char>, i: int)
    requires
        0 <= i <= s.len(),
    ensures
        i <= first_underscore(s, i) <= s.len(),
        first_underscore(s, i) < s.len() ==> s[first_underscore(s, i)] == '_',
        forall|k: int| i <= k < first_underscore(s, i) ==> s[k] != '_',
    decreases s.len() - i,
{
    if i < s.len() && s[i] != '_' {
        lemma_first_underscore_bounds(s, i + 1);
    }
}

proof fn lemma_value_grows(s: Seq<char>, k: int, j: int)
    requires
        0 <= k <= j <= s.len(),
    ensures
        value_of(s.subrange(0, k)) <= value_of(s.subrange(0, j)),
    decreases j - k,
{
    if k < j {
        lemma_value_grows(s, k, j - 1);
        assert(s.subrange(0, j).drop_last() =~= s.subrange(0, j - 1));
    }
}

proof fn lemma_decimal(n: nat)
    ensures
        decimal(n).len() >= 1,
        value_of(decimal(n)) == n,
        forall|k: int| 0 <= k < decimal(n).len() ==> is_digit(#[trigger] decimal(n)[k]),
    decreases n,
{
    if n >= 10 {
        lemma_decimal(n / 10);
        let d = decimal(n);
        assert(d.drop_last() =~= decimal(n / 10));
        assert(d.last() == digit_char(n % 10));
        assert(forall|k: int| 0 <= k < d.len() - 1 ==> d[k] == decimal(n / 10)[k]);
        assert(digit_value(digit_char(n % 10)) == n % 10);
        assert((n / 10) * 10 + n % 10 == n);
    } else {
        let d = decimal(n);
        assert(d.drop_last() =~= Seq::<char>::empty());
        assert(value_of(d.drop_last()) == 0);
        assert(digit_value(digit_char(n)) == n);
    }
}

/// The timestamp carried by spool file name `name`, when it has the form
/// `{ts}_{uuid}.retry`.
pub fn parse_spool_file_name(name: &str) -> (r: Option<u64>)
    ensures
        r == parse_spool_name(name@),
{
    let ghost s = name@;
    let len = name.unicode_len();
    let mut u: usize = 0;
    while u < len && name.get_char(u) != '_'
        invariant
            s == name@,
            len == s.len(),
            u <= len,
            forall|k: int| 0 <= k < u ==> s[k] != '_',
        decreases len - u,
    {
        u = u + 1;
    }
    proof {
        lemma_first_underscore_skip(s, 0, u as int);
        if u < len {
            assert(first_underscore(s, u as int) == u);
        }
    }
    if u >= len || u == 0 || len - u < 7 {
        return None;
    }
    let mut v: u64 = 0;
    let mut k: usize = 0;
    while k < u
        invariant
            s == name@,
            len == s.len(),
            first_underscore(s, 0) == u,
            0 < u < len,
            k <= u,
            v == value_of(s.subrange(0, k as int)),
            forall|j: int| 0 <= j < k ==> is_digit(#[trigger] s[j]),
        decreases u - k,
    {
        let c = name.get_char(k);
        if c < '0' || c > '9' {
            return None;
        }
        let d = (c as u32 - '0' as u32) as u64;
        proof {
            assert(s.subrange(0, k + 1).drop_last() =~= s.subrange(0, k as int));
        }
        if v > (u64::MAX - d) / 10 {
            proof {
                let m = (u64::MAX - d) as int;
                assert(v * 10 + d > u64::MAX) by (nonlinear_arith)
                    requires v > m / 10, m == u64::MAX - d, 0 <= d;
                lemma_value_grows(s, k + 1, u as int);
            }
            return None;
        }
        proof {
            let m = (u64::MAX - d) as int;
            assert(v * 10 + d <= u64::MAX) by (nonlinear_arith)
                requires v <= m / 10, m == u64::MAX - d, 0 <= d, 0 <= m;
        }
        v = v * 10 + d;
        k = k + 1;
    }
    let tail = name.substring_char(len - 6, len);
    let ok_suffix = tail.get_char(0) == '.' && tail.get_char(1) == 'r' && tail.get_char(2) == 'e'
        && tail.get_char(3) == 't' && tail.get_char(4) == 'r' && tail.get_char(5) == 'y';
    if !ok_suffix {
        proof {
            if s.subrange(s.len() - 6, s.len() as int) == retry_suffix() {
                assert(tail@ == retry_suffix());
            }
        }
        return None;
    }
    proof {
        assert(tail@ =~= retry_suffix());
    }
    let id = name.substring_char(u + 1, len - 6);
    if uuid_valid(id) {
        Some(v)
    } else {
        None
    }
}

/// A spool file name carries the timestamp it was made with: reading back
/// the name made at `ts` with a UUID gives `ts`.
pub proof fn law_spool_name_round_trip(ts: u64, id: Seq<char>)
    requires
        is_uuid(id),
    ensures
        parse_spool_name(spool_name(ts as nat, id)) == Some(ts),
{
    let s = spool_name(ts as nat, id);
    let d = decimal(ts as nat);
    lemma_decimal(ts as nat);
    assert forall|k: int| 0 <= k < d.len() implies s[k] != '_' by {
        assert(s[k] == d[k]);
        assert(is_digit(d[k]));
    }
    lemma_first_underscore_skip(s, 0, d.len() as int);
    assert(s[d.len() as int] == '_');
    assert(first_underscore(s, 0) == d.len());
    assert(s.subrange(0, d.len() as int) =~= d);
    assert(s.subrange(d.len() as int + 1, s.len() - 6) =~= id);
    assert(s.subrange(s.len() - 6, s.len() as int) =~= retry_suffix());
    assert forall|k: int| 0 <= k < d.len() implies is_digit(#[trigger] s[k]) by {
        assert(s[k] == d[k]);
    }
}

/// What the spool scan does with a directory entry.
#[derive(Debug, Clone, Copy, PartialEq, Eq, Structural)]
pub enum ScanDecision {
    /// Not a regular file, or not a spool file name: left alone.
    Skip,
    /// A spool file younger than the retry delay: left for a later scan.
    Wait,
    /// A spool file made at this time, old enough to be sent again.
    Reinject(u64),
}

/// What the scan at time `now` does with entry `name`.
pub open spec fn decision_of(name: Seq<char>, is_file: bool, now: u64) -> ScanDecision {
    if !is_file {
        ScanDecision::Skip
    } else {
        match parse_spool_name(name) {
            None => ScanDecision::Skip,
            Some(ts) => if now >= ts && now - ts >= RETRY_DELAY_SECS {
                ScanDecision::Reinject(ts)
            } else {
                ScanDecision::Wait
            },
        }
    }
}

/// What the scan at time `now` (seconds since the epoch) does with the
/// directory entry `name`, which is a regular file when `is_file`.
pub fn scan_decision(name: &str, is_file: bool, now: u64) -> (r: ScanDecision)
    ensures
        r == decision_of(name@, is_file, now),
{
    if !is_file {
        return ScanDecision::Skip;
    }
    match parse_spool_file_name(name) {
        None => ScanDecision::Skip,
        Some(ts) => if now >= ts && now - ts >= RETRY_DELAY_SECS {
            ScanDecision::Reinject(ts)
        } else {
            ScanDecision::Wait
        },
    }
}

/// No spool file younger than the retry delay is sent again: the scan
/// reinjects only files whose name carries a time at least the delay before
/// the scan's time.
pub proof fn law_no_early_reinjection(name: Seq<char>, is_file: bool, now: u64)
    ensures
        decision_of(name, is_file, now) is Reinject ==> {
            &&& is_file
            &&& parse_spool_name(name) is Some
            &&& now as int - parse_spool_name(name)->Some_0 as int >= RETRY_DELAY_SECS
        },
        forall|ts: u64|
            parse_spool_name(name) == Some(ts) && now < ts + RETRY_DELAY_SECS ==> !(decision_of(
                name,
                is_file,
                now,
            ) is Reinject),
{
}

/// Whether a spool file read by the scan is to be removed: when it could
/// not be decoded, or when its body was handed back to the client.
pub fn unlink_after_read(decoded: bool, pushed: bool) -> (r: bool)
    ensures
        r == (!decoded || pushed),
        pushed ==> r,
{
    !decoded || pushed
}

} // verus!
