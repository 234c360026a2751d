//! Number and timestamp formatting for status text.

use vstd::prelude::*;
use crate::text::{chars_of, owned, string_from_chars};

verus! {

/// The decimal digit character for `d < 10`.
pub open spec fn digit_char(d: nat) -> char {
    if d == 0 { '0' } else if d == 1 { '1' } else if d == 2 { '2' } else if d == 3 { '3' }
    else if d == 4 { '4' } else if d == 5 { '5' } else if d == 6 { '6' } else if d == 7 { '7' }
    else if d == 8 { '8' } else { '9' }
}

/// Decimal representation of `n`, without leading zeros.
pub open spec fn decimal(n: nat) -> Seq<char>
    decreases n,
{
    if n < 10 {
        seq![digit_char(n)]
    } else {
        decimal(n / 10) + seq![digit_char(n % 10)]
    }
}

/// The digit character for `d < 10`.
fn digit(d: u64) -> (c: char)
    requires
        d < 10,
    ensures
        c == digit_char(d as nat),
{
    if d == 0 { '0' } else if d == 1 { '1' } else if d == 2 { '2' } else if d == 3 { '3' }
    else if d == 4 { '4' } else if d == 5 { '5' } else if d == 6 { '6' } else if d == 7 { '7' }
    else if d == 8 { '8' } else { '9' }
}

/// Append the decimal digits of `n` to `out`.
pub fn push_decimal(out: &mut Vec<char>, n: u64)
    ensures
        final(out)@ == old(out)@ + decimal(n as nat),
    decreases n,
{
    if n < 10 {
        out.push(digit(n));
        assert(decimal(n as nat) =~= seq![digit_char(n as nat)]);
    } else {
        push_decimal(out, n / 10);
        out.push(digit(n % 10));
    }
}

/// Decimal text of `n`.
pub fn u64_to_decimal(n: u64) -> (r: String)
    ensures
        r@ == decimal(n as nat),
{
    let mut v: Vec<char> = Vec::new();
    push_decimal(&mut v, n);
    assert(v@ =~= decimal(n as nat));
    string_from_chars(&v)
}

// ── Timestamps ────────────────────────────────────────────────────────────

/// Value of the decimal digit `c`, if it is one.
pub open spec fn digit_value(c: char) -> Option<nat> {
    if '0' <= c && c <= '9' { Some((c as u32 - '0' as u32) as nat) } else { None }
}

/// Value of the `len` decimal digits of `s` starting at `at`.
pub open spec fn digits_value(s: Seq<char>, at: int, len: nat) -> Option<nat>
    decreases len,
{
    if len == 0 {
        Some(0)
    } else if at < 0 || at + len > s.len() {
        None
    } else {
        match (digits_value(s, at, (len - 1) as nat), digit_value(s[at + len - 1])) {
            (Some(hi), Some(d)) => Some(hi * 10 + d),
            _ => None,
        }
    }
}

/// Days since 1970-01-01 of a proleptic Gregorian date with year >= 0.
pub open spec fn days_from_civil(y: int, m: int, d: int) -> int {
    let y2 = if m <= 2 { y - 1 } else { y };
    let era = if y2 >= 0 { y2 / 400 } else { (y2 - 399) / 400 };
    let yoe = y2 - era * 400;
    let mp = if m > 2 { m - 3 } else { m + 9 };
    let doy = (153 * mp + 2) / 5 + d - 1;
    let doe = yoe * 365 + yoe / 4 - yoe / 100 + doy;
    era * 146097 + doe - 719468
}

/// A parsed RFC 3339 timestamp: calendar fields and the UTC offset in
/// seconds.
pub ghost struct TimestampView {
    pub year: int,
    pub month: int,
    pub day: int,
    pub hour: int,
    pub minute: int,
    pub second: int,
    pub offset_secs: int,
}

/// Seconds since the Unix epoch of a parsed timestamp.
pub open spec fn epoch_of(t: TimestampView) -> int {
    days_from_civil(t.year, t.month, t.day) * 86400 + t.hour * 3600 + t.minute * 60 + t.second - t.offset_secs
}

/// The calendar fields are in range.
pub open spec fn fields_ok(y: nat, mo: nat, d: nat, h: nat, mi: nat, se: nat) -> bool {
    1 <= mo <= 12 && 1 <= d <= 31 && h <= 23 && mi <= 59 && se <= 60
}

/// Length of the run of digits of `s` starting at `at`.
pub open spec fn digit_run(s: Seq<char>, at: int) -> nat
    decreases s.len() - at,
{
    if at < 0 || at >= s.len() || digit_value(s[at]) is None { 0 } else { 1 + digit_run(s, at + 1) }
}

/// The offset part of a timestamp (from position `at` to the end): `Z`, or
/// `+HH:MM` / `-HH:MM`; its value in seconds east of UTC.
pub open spec fn spec_offset(s: Seq<char>, at: int) -> Option<int> {
    if at + 1 == s.len() && (s[at] == 'Z' || s[at] == 'z') {
        Some(0)
    } else if at + 6 == s.len() && (s[at] == '+' || s[at] == '-') && s[at + 3] == ':' {
        match (digits_value(s, at + 1, 2), digits_value(s, at + 4, 2)) {
            (Some(oh), Some(om)) => if oh <= 23 && om <= 59 {
                Some(if s[at] == '+' { (oh * 3600 + om * 60) as int } else { -(oh * 3600 + om * 60) })
            } else {
                None
            },
            _ => None,
        }
    } else {
        None
    }
}

/// Parse an RFC 3339 timestamp `YYYY-MM-DDTHH:MM:SS[.fraction](Z|±HH:MM)`
/// (the date/time separator may also be `t` or a space); the fraction is
/// ignored.
pub open spec fn spec_parse_rfc3339(s: Seq<char>) -> Option<TimestampView> {
    if s.len() < 20 || s[4] != '-' || s[7] != '-' || !(s[10] == 'T' || s[10] == 't' || s[10] == ' ')
        || s[13] != ':' || s[16] != ':' {
        None
    } else {
        match (digits_value(s, 0, 4), digits_value(s, 5, 2), digits_value(s, 8, 2),
            digits_value(s, 11, 2), digits_value(s, 14, 2), digits_value(s, 17, 2)) {
            (Some(y), Some(mo), Some(d), Some(h), Some(mi), Some(se)) => {
                let frac = if s[19] == '.' && digit_run(s, 20) > 0 { 1 + digit_run(s, 20) } else { 0 };
                match spec_offset(s, 19 + frac as int) {
                    Some(off) => if fields_ok(y, mo, d, h, mi, se) {
                        Some(TimestampView {
                            year: y as int, month: mo as int, day: d as int, hour: h as int,
                            minute: mi as int, second: se as int, offset_secs: off,
                        })
                    } else {
                        None
                    },
                    None => None,
                }
            },
            _ => None,
        }
    }
}

/// Value of `len` digits of `s` at `at`.
fn digits_at(s: &Vec<char>, at: usize, len: usize) -> (r: Option<u64>)
    requires
        0 < len <= 4,
    ensures
        r is None <==> digits_value(s@, at as int, len as nat) is None,
        r matches Some(v) ==> digits_value(s@, at as int, len as nat) == Some(v as nat) && v < 10000,
{
    if at > s.len() || len > s.len() - at {
        proof {
            lemma_digits_none(s@, at as int, len as nat);
        }
        return None;
    }
    let mut v: u64 = 0;
    let mut k: usize = 0;
    while k < len
        invariant
            len <= 4,
            at + len <= s.len(),
            k <= len,
            digits_value(s@, at as int, k as nat) == Some(v as nat),
            v < pow10(k as nat),
            pow10(k as nat) <= 10000,
        decreases len - k,
    {
        proof {
            reveal_with_fuel(pow10, 5);
            lemma_pow10_mono((k + 1) as nat, 4);
        }
        let c = s[at + k];
        if c < '0' || c > '9' {
            proof {
                lemma_digits_bad(s@, at as int, k as nat, len as nat);
            }
            return None;
        }
        let d = (c as u32 - '0' as u32) as u64;
        proof {
            assert(pow10((k + 1) as nat) == pow10(k as nat) * 10);
            assert(v * 10 + d < pow10(k as nat) * 10) by (nonlinear_arith)
                requires v < pow10(k as nat), d < 10;
        }
        v = v * 10 + d;
        k = k + 1;
    }
    Some(v)
}

/// `10^n`.
pub open spec fn pow10(n: nat) -> nat
    decreases n,
{
    if n == 0 { 1 } else { 10 * pow10((n - 1) as nat) }
}

/// Powers of ten grow with the exponent.
pub proof fn lemma_pow10_mono(a: nat, b: nat)
    requires
        a <= b,
    ensures
        pow10(a) <= pow10(b),
    decreases b,
{
    if a < b {
        lemma_pow10_mono(a, (b - 1) as nat);
    }
}

/// Digits running past the end do not parse.
pub proof fn lemma_digits_none(s: Seq<char>, at: int, len: nat)
    requires
        len > 0,
        at < 0 || at + len > s.len(),
    ensures
        digits_value(s, at, len) is None,
{
}

/// A non-digit inside the run makes it unparsable.
pub proof fn lemma_digits_bad(s: Seq<char>, at: int, k: nat, len: nat)
    requires
        k < len,
        0 <= at,
        at + len <= s.len(),
        digit_value(s[at + k]) is None,
    ensures
        digits_value(s, at, len) is None,
    decreases len,
{
    if k < len - 1 {
        lemma_digits_bad(s, at, k, (len - 1) as nat);
    }
}


/// Days since 1970-01-01 of a date with year at most 9999.
fn days_from_civil_exec(y: i64, m: i64, d: i64) -> (r: i64)
    requires
        0 <= y <= 9999,
        1 <= m <= 12,
        1 <= d <= 31,
    ensures
        r == days_from_civil(y as int, m as int, d as int),
{
    let y2 = if m <= 2 { y - 1 } else { y };
    let era = if y2 >= 0 { y2 / 400 } else { (y2 - 399) / 400 };
    let yoe = y2 - era * 400;
    let mp = if m > 2 { m - 3 } else { m + 9 };
    let doy = (153 * mp + 2) / 5 + d - 1;
    proof {
        assert(0 <= yoe < 400) by {
            if y2 >= 0 {
                assert(y2 - (y2 / 400) * 400 >= 0 && y2 - (y2 / 400) * 400 < 400) by (nonlinear_arith)
                    requires y2 >= 0;
            } else {
                assert(y2 == -1);
            }
        }
    }
    let doe = yoe * 365 + yoe / 4 - yoe / 100 + doy;
    era * 146097 + doe - 719468
}

/// Length of the digit run of `s` at `at`.
fn digit_run_exec(s: &Vec<char>, at: usize) -> (r: usize)
    requires
        at <= s.len(),
    ensures
        r == digit_run(s@, at as int),
        at + r <= s.len(),
{
    let mut k: usize = at;
    while k < s.len() && s[k] >= '0' && s[k] <= '9'
        invariant
            at <= k <= s.len(),
            digit_run(s@, at as int) == (k - at) + digit_run(s@, k as int),
        decreases s.len() - k,
    {
        k = k + 1;
    }
    k - at
}

/// The offset part of a timestamp starting at `at`, in seconds east of UTC.
fn offset_exec(s: &Vec<char>, at: usize) -> (r: Option<i64>)
    ensures
        r matches Some(v) ==> spec_offset(s@, at as int) == Some(v as int),
        r is None ==> spec_offset(s@, at as int) is None,
{
    if at < s.len() && at + 1 == s.len() && (s[at] == 'Z' || s[at] == 'z') {
        return Some(0);
    }
    if at < s.len() && s.len() - at == 6 && (s[at] == '+' || s[at] == '-') && s[at + 3] == ':' {
        match (digits_at(s, at + 1, 2), digits_at(s, at + 4, 2)) {
            (Some(oh), Some(om)) => {
                if oh <= 23 && om <= 59 {
                    let v = (oh * 3600 + om * 60) as i64;
                    return if s[at] == '+' { Some(v) } else { Some(-v) };
                }
                return None;
            },
            _ => return None,
        }
    }
    None
}

/// Seconds since the Unix epoch of an RFC 3339 timestamp, when it parses.
pub open spec fn spec_timestamp_secs(s: Seq<char>) -> Option<int> {
    match spec_parse_rfc3339(s) {
        Some(t) => Some(epoch_of(t)),
        None => None,
    }
}

/// Parse an RFC 3339 timestamp to seconds since the Unix epoch.
pub fn parse_rfc3339(text: &str) -> (r: Option<i64>)
    ensures
        r matches Some(v) ==> spec_timestamp_secs(text@) == Some(v as int),
        r is None ==> spec_timestamp_secs(text@) is None,
{
    let s = chars_of(text);
    if s.len() < 20 || s[4] != '-' || s[7] != '-' || !(s[10] == 'T' || s[10] == 't' || s[10] == ' ')
        || s[13] != ':' || s[16] != ':' {
        return None;
    }
    let (y, mo, d, h, mi, se) = match (digits_at(&s, 0, 4), digits_at(&s, 5, 2), digits_at(&s, 8, 2),
        digits_at(&s, 11, 2), digits_at(&s, 14, 2), digits_at(&s, 17, 2)) {
        (Some(y), Some(mo), Some(d), Some(h), Some(mi), Some(se)) => (y, mo, d, h, mi, se),
        _ => return None,
    };
    let frac: usize = if s[19] == '.' {
        let run = digit_run_exec(&s, 20);
        if run > 0 { 1 + run } else { 0 }
    } else {
        0
    };
    let off = match offset_exec(&s, 19 + frac) {
        Some(o) => o,
        None => return None,
    };
    if !(1 <= mo && mo <= 12 && 1 <= d && d <= 31 && h <= 23 && mi <= 59 && se <= 60) {
        return None;
    }
    let days = days_from_civil_exec(y as i64, mo as i64, d as i64);
    proof {
        assert(-800000 <= days_from_civil(y as int, mo as int, d as int) <= 3000000) by (nonlinear_arith)
            requires
                0 <= y <= 9999, 1 <= mo <= 12, 1 <= d <= 31,
                days_from_civil(y as int, mo as int, d as int) == days;
    }
    let secs = days * 86400 + (h as i64) * 3600 + (mi as i64) * 60 + (se as i64) - off;
    Some(secs)
}

/// Seconds since the Unix epoch, read from the system clock (0 when the
/// clock is before the epoch).
#[verifier::external_body]
fn unix_now() -> (r: i64) {
    match std::time::SystemTime::now().duration_since(std::time::UNIX_EPOCH) {
        Ok(d) => d.as_secs() as i64,
        Err(_) => 0,
    }
}

/// Relative age text for `elapsed` seconds: seconds, minutes, hours or days,
/// followed by " ago"; "just now" for a time in the future.
pub open spec fn spec_relative(elapsed: int) -> Seq<char> {
    if elapsed < 0 {
        "just now"@
    } else if elapsed < 60 {
        decimal(elapsed as nat) + "s ago"@
    } else if elapsed < 3600 {
        decimal((elapsed / 60) as nat) + "m ago"@
    } else if elapsed < 86400 {
        decimal((elapsed / 3600) as nat) + "h ago"@
    } else {
        decimal((elapsed / 86400) as nat) + "d ago"@
    }
}

/// Relative age text for `elapsed` seconds.
pub fn format_relative(elapsed: i64) -> (r: String)
    ensures
        r@ == spec_relative(elapsed as int),
{
    if elapsed < 0 {
        return owned("just now");
    }
    let (n, unit) = if elapsed < 60 {
        (elapsed as u64, "s ago")
    } else if elapsed < 3600 {
        ((elapsed / 60) as u64, "m ago")
    } else if elapsed < 86400 {
        ((elapsed / 3600) as u64, "h ago")
    } else {
        ((elapsed / 86400) as u64, "d ago")
    };
    let mut v: Vec<char> = Vec::new();
    push_decimal(&mut v, n);
    let u = chars_of(unit);
    let ghost mid = v@;
    let mut i: usize = 0;
    while i < u.len()
        invariant
            i <= u.len(),
            v@ == mid + u@.take(i as int),
        decreases u.len() - i,
    {
        v.push(u[i]);
        i = i + 1;
        assert(v@ =~= mid + u@.take(i as int));
    }
    assert(u@.take(u@.len() as int) =~= u@);
    string_from_chars(&v)
}

/// `x` clamped to the `i64` range.
pub open spec fn clamp_i64(x: int) -> int {
    if x < i64::MIN { i64::MIN as int } else if x > i64::MAX { i64::MAX as int } else { x }
}

/// The text [`format_relative_at`] gives: the relative age of the
/// timestamp `text` as of `now` (seconds since the epoch), or `text` itself
/// when it does not parse as a timestamp.
pub open spec fn spec_relative_at(text: Seq<char>, now: int) -> Seq<char> {
    match spec_timestamp_secs(text) {
        Some(t) => spec_relative(clamp_i64(now - t)),
        None => text,
    }
}

/// Relative age of an RFC 3339 timestamp as of `now`, in seconds since the
/// Unix epoch; text that does not parse as a timestamp is returned
/// unchanged.
pub fn format_relative_at(text: &str, now: i64) -> (r: String)
    ensures
        r@ == spec_relative_at(text@, now as int),
{
    match parse_rfc3339(text) {
        Some(t) => {
            let elapsed: i64 = if t >= 0 {
                if now < i64::MIN + t { i64::MIN } else { now - t }
            } else {
                if now > i64::MAX + t { i64::MAX } else { now - t }
            };
            format_relative(elapsed)
        },
        None => owned(text),
    }
}

/// Relative age of an RFC 3339 timestamp as of now (read from the system
/// clock); text that does not parse as a timestamp is returned unchanged.
pub fn format_relative_time_from_str(text: &str) -> (r: String)
    ensures
        exists|now: i64| r@ == #[trigger] spec_relative_at(text@, now as int),
{
    let now = unix_now();
    let r = format_relative_at(text, now);
    assert(r@ == spec_relative_at(text@, now as int));
    r
}

} // verus!
