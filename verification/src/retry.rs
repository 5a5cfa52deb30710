//! Retry decisions after transport errors: which errors are retried, how long
//! to wait before the next attempt, and the delay a server asks for in its
//! rate-limit headers.

use vstd::prelude::*;
use vstd::string::*;
use crate::clock::unix_now;
use crate::nearest_double::{
    decimal_digits_ceiling, double_ceiling, fraction_den, fraction_num, lemma_far_points, lemma_zeros_from_bounds,
};
use rand::Rng;

verus! {

// ---------------------------------------------------------------------------
// Outside types
// ---------------------------------------------------------------------------

#[verifier::external_type_specification]
#[verifier::external_body]
#[verifier::reject_recursive_types(T)]
pub struct ExHeaderMap<T>(http::HeaderMap<T>);

#[verifier::external_type_specification]
#[verifier::external_body]
pub struct ExHeaderValue(http::HeaderValue);

#[verifier::external_type_specification]
#[verifier::external_body]
pub struct ExStatusCode(http::StatusCode);

/// What a header map holds: for each header name (lower case, as `http`
/// stores it) the values given for it, in the order they were added, each as
/// its raw bytes.
pub uninterp spec fn header_map_values(headers: http::HeaderMap) -> Map<Seq<char>, Seq<Seq<u8>>>;

/// The number `StatusCode::as_u16` returns for a status code.
pub uninterp spec fn status_code_number(status: http::StatusCode) -> u16;

/// The whole seconds since the Unix epoch that `httpdate::parse_http_date`
/// reads from a text, `None` where it refuses the text.
pub uninterp spec fn http_date_seconds(text: Seq<char>) -> Option<u64>;

/// A header name as `http` stores it: lower-case letters, digits and `-`.
pub open spec fn is_lower_header_name(name: Seq<char>) -> bool {
    &&& name.len() > 0
    &&& forall|i: int|
        0 <= i < name.len() ==> ('a' <= #[trigger] name[i] <= 'z' || '0' <= name[i] <= '9'
            || name[i] == '-')
}

/// The first value stored under `name`, if any.
pub open spec fn first_header_value(
    values: Map<Seq<char>, Seq<Seq<u8>>>,
    name: Seq<char>,
) -> Option<Seq<u8>> {
    if values.contains_key(name) && values[name].len() > 0 {
        Some(values[name][0])
    } else {
        None
    }
}

/// `HeaderMap::get` with a lower-case header name: the bytes of the first
/// value stored under the name. The contract claims that `get` returns the
/// first value added for the name, and nothing when there is none.
#[verifier::external_body]
fn header_get(headers: &http::HeaderMap, name: &str) -> (res: Option<Vec<u8>>)
    requires
        is_lower_header_name(name@),
    ensures
        match res {
            Some(bytes) => first_header_value(header_map_values(*headers), name@) == Some(bytes@),
            None => first_header_value(header_map_values(*headers), name@) is None,
        },
{
    match headers.get(name) {
        Some(value) => Some(value.as_bytes().to_vec()),
        None => None,
    }
}

/// `StatusCode::as_u16`. The contract claims the number is the status code's
/// own, which `http` keeps between 100 and 999.
#[verifier::external_body]
fn status_as_u16(status: &http::StatusCode) -> (res: u16)
    ensures
        res == status_code_number(*status),
        100 <= res <= 999,
{
    status.as_u16()
}

/// `httpdate::parse_http_date`, read as whole seconds since the Unix epoch.
/// The contract claims the result is a function of the text alone; the crate
/// accepts only dates from 1970 up to the end of 9999.
#[verifier::external_body]
fn parse_http_date_secs(text: &str) -> (res: Option<u64>)
    ensures
        res == http_date_seconds(text@),
        res matches Some(secs) ==> secs < 253_402_300_800,
{
    match httpdate::parse_http_date(text) {
        Ok(time) => match time.duration_since(std::time::UNIX_EPOCH) {
            Ok(since) => Some(since.as_secs()),
            Err(_) => None,
        },
        Err(_) => None,
    }
}

// ---------------------------------------------------------------------------
// Durations
// ---------------------------------------------------------------------------

pub open spec fn nanos_per_sec() -> int {
    1_000_000_000
}

/// The largest span a `Duration` can hold, in nanoseconds.
pub open spec fn max_duration_nanos() -> int {
    u64::MAX * nanos_per_sec() + (nanos_per_sec() - 1)
}

/// A span of time, as whole seconds and the nanoseconds below one second.
#[derive(Clone, Copy, Debug, PartialEq, Eq, PartialOrd, Ord, Hash, Structural)]
pub struct Duration {
    secs: u64,
    nanos: u32,
}

impl View for Duration {
    type V = int;

    /// The span in nanoseconds.
    closed spec fn view(&self) -> int {
        self.secs * nanos_per_sec() + self.nanos
    }
}

impl Duration {
    #[verifier::type_invariant]
    closed spec fn nanos_below_one_second(self) -> bool {
        self.nanos < 1_000_000_000
    }

    /// The duration of `secs` seconds and `nanos` nanoseconds, the
    /// nanoseconds carried into seconds where they reach one second.
    pub fn new(secs: u64, nanos: u32) -> (res: Duration)
        requires
            secs + nanos / 1_000_000_000 <= u64::MAX,
        ensures
            res@ == secs * nanos_per_sec() + nanos,
    {
        let extra = nanos / 1_000_000_000;
        let rest = nanos % 1_000_000_000;
        Duration { secs: secs + extra as u64, nanos: rest }
    }

    /// The duration of `secs` whole seconds.
    pub fn from_secs(secs: u64) -> (res: Duration)
        ensures
            res@ == secs * nanos_per_sec(),
    {
        Duration { secs, nanos: 0 }
    }

    /// The duration of `millis` milliseconds.
    pub fn from_millis(millis: u64) -> (res: Duration)
        ensures
            res@ == millis * 1_000_000,
    {
        let secs = millis / 1000;
        let rest = millis % 1000;
        Duration { secs, nanos: (rest * 1_000_000) as u32 }
    }

    /// The empty duration.
    pub fn zero() -> (res: Duration)
        ensures
            res@ == 0,
    {
        Duration { secs: 0, nanos: 0 }
    }

    /// The duration of `total` nanoseconds.
    pub fn from_nanos_total(total: u128) -> (res: Duration)
        requires
            total <= max_duration_nanos(),
        ensures
            res@ == total,
    {
        let secs = total / 1_000_000_000;
        let nanos = total % 1_000_000_000;
        Duration { secs: secs as u64, nanos: nanos as u32 }
    }

    /// The whole seconds.
    pub fn as_secs(&self) -> (res: u64)
        ensures
            res == self@ / nanos_per_sec(),
    {
        proof {
            use_type_invariant(self);
        }
        self.secs
    }

    /// The nanoseconds below one second.
    pub fn subsec_nanos(&self) -> (res: u32)
        ensures
            res == self@ % nanos_per_sec(),
    {
        proof {
            use_type_invariant(self);
        }
        self.nanos
    }

    /// The whole milliseconds.
    pub fn as_millis(&self) -> (res: u128)
        ensures
            res == self@ / 1_000_000,
    {
        proof {
            use_type_invariant(self);
        }
        self.secs as u128 * 1000 + (self.nanos / 1_000_000) as u128
    }

    /// The span in nanoseconds.
    pub fn as_nanos(&self) -> (res: u128)
        ensures
            res == self@,
    {
        proof {
            use_type_invariant(self);
        }
        self.secs as u128 * 1_000_000_000 + self.nanos as u128
    }
}


// ---------------------------------------------------------------------------
// Reading header texts
// ---------------------------------------------------------------------------

/// `b` to the power `e`.
pub open spec fn power(b: nat, e: nat) -> nat
    decreases e,
{
    if e == 0 {
        1
    } else {
        b * power(b, (e - 1) as nat)
    }
}

/// A byte that `HeaderValue::to_str` accepts: visible ASCII or a tab.
pub open spec fn is_visible_ascii(b: u8) -> bool {
    (32 <= b < 127) || b == 9
}

/// A blank that `str::trim` removes from visible ASCII text.
pub open spec fn is_blank(b: u8) -> bool {
    b == 32 || b == 9
}

pub open spec fn is_digit(b: u8) -> bool {
    48 <= b <= 57
}

pub open spec fn all_digits(d: Seq<u8>) -> bool {
    forall|i: int| 0 <= i < d.len() ==> is_digit(#[trigger] d[i])
}

/// The number that the decimal digits `d` write.
pub open spec fn digits_value(d: Seq<u8>) -> nat
    decreases d.len(),
{
    if d.len() == 0 {
        0
    } else {
        digits_value(d.drop_last()) * 10 + (d.last() - 48) as nat
    }
}

/// The first index at or after `i` whose byte is not blank.
pub open spec fn skip_blanks(b: Seq<u8>, i: int) -> int
    decreases b.len() - i,
{
    if 0 <= i < b.len() && is_blank(b[i]) {
        skip_blanks(b, i + 1)
    } else {
        i
    }
}

/// The end left of `end` once blanks after `start` are dropped from the end.
pub open spec fn drop_trailing_blanks(b: Seq<u8>, start: int, end: int) -> int
    decreases end - start,
{
    if start < end && is_blank(b[end - 1]) {
        drop_trailing_blanks(b, start, end - 1)
    } else {
        end
    }
}

/// `b` without blanks at either end.
pub open spec fn trim_blanks(b: Seq<u8>) -> Seq<u8> {
    let start = skip_blanks(b, 0);
    b.subrange(start, drop_trailing_blanks(b, start, b.len() as int))
}

/// The first index at or after `i` whose byte is not a digit.
pub open spec fn digits_end(b: Seq<u8>, i: int) -> int
    decreases b.len() - i,
{
    if 0 <= i < b.len() && is_digit(b[i]) {
        digits_end(b, i + 1)
    } else {
        i
    }
}

/// The text as `str::parse::<u64>` reads it: an optional `+` and at least one
/// digit, no larger than `u64::MAX`.
pub open spec fn whole_number(text: Seq<u8>) -> Option<u64> {
    let d = if text.len() > 0 && text[0] == 43 {
        text.drop_first()
    } else {
        text
    };
    if d.len() > 0 && all_digits(d) && digits_value(d) <= u64::MAX {
        Some(digits_value(d) as u64)
    } else {
        None
    }
}

/// The layout of a decimal number: an optional `+`, integer digits, an
/// optional `.` with fraction digits, at least one digit in all, and an
/// optional exponent (`e` or `E`, an optional sign, at least one digit).
pub struct DecimalLayout {
    /// Start and end of the integer digits.
    pub int_start: int,
    pub int_end: int,
    /// Start and end of the fraction digits.
    pub frac_start: int,
    pub frac_end: int,
    /// The exponent, signed.
    pub exponent: int,
}

/// The exponent that a number's text ends with from `from` on: zero where the
/// text ends there, `None` where what follows is no exponent.
pub open spec fn exponent_part(text: Seq<u8>, from: int) -> Option<int> {
    if from == text.len() {
        Some(0)
    } else if text[from] == 101 || text[from] == 69 {
        let j = from + 1;
        let negative = j < text.len() && text[j] == 45;
        let k0 = if j < text.len() && (text[j] == 45 || text[j] == 43) { j + 1 } else { j };
        let k1 = digits_end(text, k0);
        if k1 > k0 && k1 == text.len() {
            let magnitude = digits_value(text.subrange(k0, k1)) as int;
            Some(if negative { -magnitude } else { magnitude })
        } else {
            None
        }
    } else {
        None
    }
}

pub open spec fn decimal_layout(text: Seq<u8>) -> Option<DecimalLayout> {
    let i0: int = if text.len() > 0 && text[0] == 43 { 1 } else { 0 };
    let i1 = digits_end(text, i0);
    let dot = i1 < text.len() && text[i1] == 46;
    let f0 = if dot { i1 + 1 } else { i1 };
    let f1 = if dot { digits_end(text, f0) } else { f0 };
    if (i1 - i0) + (f1 - f0) == 0 {
        None
    } else {
        match exponent_part(text, f1) {
            Some(e) => Some(DecimalLayout { int_start: i0, int_end: i1, frac_start: f0, frac_end: f1, exponent: e }),
            None => None,
        }
    }
}

/// The digits of a decimal number: its integer digits, then its fraction
/// digits.
pub open spec fn layout_digits(text: Seq<u8>, l: DecimalLayout) -> Seq<u8> {
    text.subrange(l.int_start, l.int_end) + text.subrange(l.frac_start, l.frac_end)
}

/// The whole seconds a decimal number of seconds rounds up to, read as a
/// double: the double nearest to the number (a tie to the even significand)
/// rounded up to a whole number, saturated at `u64::MAX`. `None` for a
/// negative sign, for `inf` and `nan`, for malformed text and for numbers
/// whose nearest double is infinite.
pub open spec fn decimal_ceiling(text: Seq<u8>) -> Option<u64> {
    match decimal_layout(text) {
        None => None,
        Some(l) => {
            let d = layout_digits(text, l);
            let point = (l.int_end - l.int_start) + l.exponent;
            double_ceiling(fraction_num(d, point), fraction_den(d, point))
        },
    }
}

/// A number of seconds as a header gives it: a whole number, or else a
/// decimal number rounded up.
pub open spec fn seconds_reading(text: Seq<u8>) -> Option<u64> {
    match whole_number(text) {
        Some(n) => Some(n),
        None => decimal_ceiling(text),
    }
}


/// The text of a header value as `to_str` and `trim` give it: `None` unless
/// every byte is visible ASCII or a tab, the bytes without blanks at either
/// end otherwise.
fn visible_trimmed(bytes: &Vec<u8>) -> (res: Option<Vec<u8>>)
    ensures
        match res {
            Some(t) => (forall|i: int| 0 <= i < bytes@.len() ==> is_visible_ascii(#[trigger] bytes@[i]))
                && t@ == trim_blanks(bytes@),
            None => exists|i: int| 0 <= i < bytes@.len() && !is_visible_ascii(#[trigger] bytes@[i]),
        },
{
    let n = bytes.len();
    let mut i: usize = 0;
    while i < n
        invariant
            n == bytes@.len(),
            i <= n,
            forall|j: int| 0 <= j < i ==> is_visible_ascii(#[trigger] bytes@[j]),
        decreases n - i,
    {
        let b = bytes[i];
        if !((32 <= b && b < 127) || b == 9) {
            assert(!is_visible_ascii(bytes@[i as int]));
            return None;
        }
        i = i + 1;
    }
    let mut start: usize = 0;
    while start < n && (bytes[start] == 32 || bytes[start] == 9)
        invariant
            n == bytes@.len(),
            start <= n,
            skip_blanks(bytes@, start as int) == skip_blanks(bytes@, 0),
        decreases n - start,
    {
        start = start + 1;
    }
    let mut end: usize = n;
    while end > start && (bytes[end - 1] == 32 || bytes[end - 1] == 9)
        invariant
            n == bytes@.len(),
            start <= end <= n,
            start == skip_blanks(bytes@, 0),
            drop_trailing_blanks(bytes@, start as int, end as int) == drop_trailing_blanks(
                bytes@,
                start as int,
                n as int,
            ),
        decreases end,
    {
        end = end - 1;
    }
    let mut out: Vec<u8> = Vec::new();
    let mut k: usize = start;
    while k < end
        invariant
            n == bytes@.len(),
            start <= k <= end <= n,
            out@ == bytes@.subrange(start as int, k as int),
        decreases end - k,
    {
        out.push(bytes[k]);
        assert(bytes@.subrange(start as int, k + 1) =~= bytes@.subrange(start as int, k as int).push(bytes@[k as int]));
        k = k + 1;
    }
    Some(out)
}

/// Longer runs of digits write larger numbers.
proof fn lemma_digits_value_grows(d: Seq<u8>, i: int, j: int)
    requires
        0 <= i <= j <= d.len(),
    ensures
        digits_value(d.take(i)) <= digits_value(d.take(j)),
    decreases j - i,
{
    if i < j {
        lemma_digits_value_grows(d, i, j - 1);
        assert(d.take(j).drop_last() =~= d.take(j - 1));
    }
}

/// The number that `d.take(i + 1)` writes, from the one `d.take(i)` writes.
proof fn lemma_digits_value_step(d: Seq<u8>, i: int)
    requires
        0 <= i < d.len(),
    ensures
        digits_value(d.take(i + 1)) == digits_value(d.take(i)) * 10 + (d[i] - 48) as nat,
{
    assert(d.take(i + 1).drop_last() =~= d.take(i));
}

/// `str::parse::<u64>`, written out over the bytes of a text.
fn parse_whole_number(text: &Vec<u8>) -> (res: Option<u64>)
    ensures
        res == whole_number(text@),
{
    let n = text.len();
    let start: usize = if n > 0 && text[0] == 43 { 1 } else { 0 };
    let ghost d = if text@.len() > 0 && text@[0] == 43 { text@.drop_first() } else { text@ };
    assert(d =~= text@.subrange(start as int, n as int));
    if start == n {
        return None;
    }
    let mut value: u64 = 0;
    let mut i: usize = start;
    while i < n
        invariant
            n == text@.len(),
            start <= i <= n,
            d == text@.subrange(start as int, n as int),
            d == (if text@.len() > 0 && text@[0] == 43 { text@.drop_first() } else { text@ }),
            forall|j: int| 0 <= j < i - start ==> is_digit(#[trigger] d[j]),
            value == digits_value(d.take(i - start)),
        decreases n - i,
    {
        let b = text[i];
        if !(48 <= b && b <= 57) {
            assert(!is_digit(d[i - start]));
            assert(!all_digits(d));
            return None;
        }
        let digit = (b - 48) as u64;
        proof {
            lemma_digits_value_step(d, i - start);
        }
        if value > (u64::MAX - digit) / 10 {
            proof {
                assert(value * 10 + digit > u64::MAX) by (nonlinear_arith)
                    requires
                        value > (u64::MAX - digit) / 10,
                        digit <= 9,
                ;
                lemma_digits_value_grows(d, i - start + 1, d.len() as int);
                assert(d.take(d.len() as int) =~= d);
                assert(digits_value(d) > u64::MAX);
            }
            return None;
        }
        value = value * 10 + digit;
        i = i + 1;
    }
    assert(d.take(n - start) =~= d);
    Some(value)
}

/// The characters of visible ASCII bytes.
pub open spec fn ascii_chars(bytes: Seq<u8>) -> Seq<char> {
    bytes.map_values(|b: u8| b as char)
}

/// A `String` holding the characters of the bytes, one for one.
fn ascii_string(bytes: &Vec<u8>) -> (res: String)
    ensures
        res@ == ascii_chars(bytes@),
{
    let mut out = String::new();
    let n = bytes.len();
    let mut i: usize = 0;
    while i < n
        invariant
            n == bytes@.len(),
            i <= n,
            out@ == ascii_chars(bytes@.take(i as int)),
        decreases n - i,
    {
        let c = bytes[i] as char;
        crate::text::push_char(&mut out, c);
        assert(ascii_chars(bytes@.take(i + 1)) =~= ascii_chars(bytes@.take(i as int)).push(c));
        i = i + 1;
    }
    assert(bytes@.take(n as int) =~= bytes@);
    out
}


/// `digits_end`, computed.
fn digits_end_of(text: &Vec<u8>, from: usize) -> (res: usize)
    requires
        from <= text@.len(),
    ensures
        res == digits_end(text@, from as int),
        from <= res <= text@.len(),
{
    let n = text.len();
    let mut i = from;
    while i < n && 48 <= text[i] && text[i] <= 57
        invariant
            n == text@.len(),
            from <= i <= n,
            digits_end(text@, i as int) == digits_end(text@, from as int),
        decreases n - i,
    {
        i = i + 1;
    }
    i
}

/// Multiplying by ten and adding a digit commutes with capping at `cap`.
proof fn lemma_capped_step(v: nat, capped: nat, digit: nat, cap: nat)
    requires
        capped == if v > cap { cap } else { v },
        digit <= 9,
    ensures
        (if capped * 10 + digit > cap { cap } else { capped * 10 + digit }) == (if v * 10 + digit > cap {
            cap
        } else {
            v * 10 + digit
        }),
{
}

/// The digits `text[from..to]`, read as a number capped at `cap`.
fn capped_digits_value(text: &Vec<u8>, from: usize, to: usize, cap: u128) -> (res: u128)
    requires
        from <= to <= text@.len(),
        all_digits(text@.subrange(from as int, to as int)),
        cap <= u64::MAX as u128 * 4,
    ensures
        res == if digits_value(text@.subrange(from as int, to as int)) > cap {
            cap as int
        } else {
            digits_value(text@.subrange(from as int, to as int)) as int
        },
{
    let ghost d = text@.subrange(from as int, to as int);
    let mut acc: u128 = 0;
    let mut i = from;
    while i < to
        invariant
            from <= i <= to <= text@.len(),
            d == text@.subrange(from as int, to as int),
            all_digits(d),
            cap <= u64::MAX as u128 * 4,
            acc == if digits_value(d.take(i - from)) > cap {
                cap as int
            } else {
                digits_value(d.take(i - from)) as int
            },
        decreases to - i,
    {
        assert(is_digit(d[i - from]));
        let digit = (text[i] - 48) as u128;
        proof {
            lemma_digits_value_step(d, i - from);
            lemma_capped_step(digits_value(d.take(i - from)), acc as nat, digit as nat, cap as nat);
        }
        acc = if acc * 10 + digit > cap { cap } else { acc * 10 + digit };
        i = i + 1;
    }
    assert(d.take(to - from) =~= d);
    acc
}

/// The exponent read from `from` on, as a sign and a magnitude capped at
/// `cap`.
fn read_exponent(text: &Vec<u8>, from: usize, cap: u128) -> (res: Option<(bool, u128)>)
    requires
        from <= text@.len(),
        cap <= u64::MAX as u128 * 4,
    ensures
        match res {
            None => exponent_part(text@, from as int) is None,
            Some((negative, magnitude)) => exponent_part(text@, from as int) matches Some(e) && (if negative {
                e <= 0
            } else {
                e >= 0
            }) && magnitude == (if (if e >= 0 { e } else { -e }) > cap { cap as int } else { if e >= 0 { e } else { -e } }),
        },
{
    let n = text.len();
    if from == n {
        return Some((false, 0));
    }
    if !(text[from] == 101 || text[from] == 69) {
        return None;
    }
    let j = from + 1;
    let negative = j < n && text[j] == 45;
    let k0 = if j < n && (text[j] == 45 || text[j] == 43) { j + 1 } else { j };
    let k1 = digits_end_of(text, k0);
    if !(k1 > k0 && k1 == n) {
        return None;
    }
    proof {
        assert forall|i: int| 0 <= i < text@.subrange(k0 as int, k1 as int).len() implies is_digit(
            #[trigger] text@.subrange(k0 as int, k1 as int)[i],
        ) by {
            lemma_digits_end_digits(text@, k0 as int, k0 + i);
        }
    }
    let magnitude = capped_digits_value(text, k0, k1, cap);
    Some((negative, magnitude))
}

/// The bytes `text[i0..i1]` followed by `text[f0..f1]`.
fn concat_ranges(text: &Vec<u8>, i0: usize, i1: usize, f0: usize, f1: usize) -> (res: Vec<u8>)
    requires
        i0 <= i1 <= text@.len(),
        f0 <= f1 <= text@.len(),
    ensures
        res@ == text@.subrange(i0 as int, i1 as int) + text@.subrange(f0 as int, f1 as int),
{
    let n = text.len();
    let mut d: Vec<u8> = Vec::new();
    let mut i = i0;
    while i < i1
        invariant
            i0 <= i <= i1 <= n == text@.len(),
            d@ == text@.subrange(i0 as int, i as int),
        decreases i1 - i,
    {
        d.push(text[i]);
        assert(text@.subrange(i0 as int, i + 1) =~= text@.subrange(i0 as int, i as int).push(text@[i as int]));
        i = i + 1;
    }
    let mut i = f0;
    while i < f1
        invariant
            f0 <= i <= f1 <= n == text@.len(),
            i0 <= i1 <= n,
            d@ == text@.subrange(i0 as int, i1 as int) + text@.subrange(f0 as int, i as int),
        decreases f1 - i,
    {
        d.push(text[i]);
        assert(text@.subrange(f0 as int, i + 1) =~= text@.subrange(f0 as int, i as int).push(text@[i as int]));
        i = i + 1;
    }
    d
}

/// `decimal_ceiling`, computed.
#[verifier::spinoff_prover]
#[verifier::rlimit(80)]
fn decimal_ceiling_of(text: &Vec<u8>) -> (res: Option<u64>)
    ensures
        res == decimal_ceiling(text@),
{
    let n = text.len();
    let i0: usize = if n > 0 && text[0] == 43 { 1 } else { 0 };
    let i1 = digits_end_of(text, i0);
    let dot = i1 < n && text[i1] == 46;
    let f0 = if dot { i1 + 1 } else { i1 };
    let f1 = if dot { digits_end_of(text, f0) } else { f0 };
    if (i1 - i0) + (f1 - f0) == 0 {
        return None;
    }
    let cap: u128 = 2 * (n as u128) + 400;
    let (negative, magnitude) = match read_exponent(text, f1, cap) {
        None => return None,
        Some(e) => e,
    };
    let ghost l = decimal_layout(text@).unwrap();
    assert(l.int_start == i0 && l.int_end == i1 && l.frac_start == f0 && l.frac_end == f1);
    let d = concat_ranges(text, i0, i1, f0, f1);
    let ghost digits = d@;
    assert(digits == layout_digits(text@, l));
    proof {
        assert forall|k: int| 0 <= k < digits.len() implies is_digit(#[trigger] digits[k]) by {
            if k < i1 - i0 {
                lemma_digits_end_digits(text@, i0 as int, i0 + k);
            } else {
                lemma_digits_end_digits(text@, f0 as int, f0 + (k - (i1 - i0)));
            }
        }
    }
    let int_len = (i1 - i0) as i128;
    let point: i128 = if negative { int_len - magnitude as i128 } else { int_len + magnitude as i128 };
    proof {
        let e = l.exponent;
        let x = if e >= 0 { e } else { -e };
        lemma_zeros_from_bounds(digits, 0);
        if x > cap {
            lemma_far_points(digits, int_len + e, point as int);
        }
    }
    decimal_digits_ceiling(&d, point)
}

/// Each byte before `digits_end` is a digit.
proof fn lemma_digits_end_digits(b: Seq<u8>, i: int, k: int)
    requires
        0 <= i <= k < digits_end(b, i),
    ensures
        is_digit(b[k]),
    decreases k - i,
{
    if i < k {
        lemma_digits_end_digits(b, i + 1, k);
    }
}


/// `seconds_reading`, computed.
fn seconds_reading_of(text: &Vec<u8>) -> (res: Option<u64>)
    ensures
        res == seconds_reading(text@),
{
    match parse_whole_number(text) {
        Some(n) => Some(n),
        None => decimal_ceiling_of(text),
    }
}

/// A number of seconds as a header gives it, read from the UTF-8 bytes of
/// a text: a whole number, or else a decimal number rounded up.
pub fn parse_seconds_str(s: &str) -> (res: Option<u64>)
    ensures
        res == seconds_reading(s.spec_bytes()),
{
    let bytes = s.as_bytes();
    let mut v: Vec<u8> = Vec::new();
    let n = bytes.len();
    for i in 0..n
        invariant
            n == bytes@.len(),
            v@ == bytes@.take(i as int),
    {
        v.push(bytes[i]);
        assert(bytes@.take(i + 1) =~= bytes@.take(i as int).push(bytes@[i as int]));
    }
    assert(bytes@.take(n as int) =~= bytes@);
    seconds_reading_of(&v)
}

// ---------------------------------------------------------------------------
// Server-requested delays
// ---------------------------------------------------------------------------

pub open spec fn all_visible_ascii(b: Seq<u8>) -> bool {
    forall|i: int| 0 <= i < b.len() ==> is_visible_ascii(#[trigger] b[i])
}

/// The text of the first value under `name`, as `to_str` and `trim` give it.
pub open spec fn header_text(values: Map<Seq<char>, Seq<Seq<u8>>>, name: Seq<char>) -> Option<Seq<u8>> {
    match first_header_value(values, name) {
        Some(v) => if all_visible_ascii(v) {
            Some(trim_blanks(v))
        } else {
            None
        },
        None => None,
    }
}

/// The span from `now` to the whole second `target`, both counted from the
/// Unix epoch, where `target` lies after `now`.
pub open spec fn span_until(target: u64, now: int) -> Option<int> {
    if target * nanos_per_sec() > now {
        Some(target * nanos_per_sec() - now)
    } else {
        None
    }
}

/// `Retry-After`: a number of seconds, or an HTTP date that lies after `now`.
pub open spec fn retry_after_delay(values: Map<Seq<char>, Seq<Seq<u8>>>, now: Option<int>) -> Option<int> {
    match header_text(values, "retry-after"@) {
        None => None,
        Some(t) => match seconds_reading(t) {
            Some(secs) => Some(secs * nanos_per_sec()),
            None => match (http_date_seconds(ascii_chars(t)), now) {
                (Some(target), Some(n)) => span_until(target, n),
                _ => None,
            },
        },
    }
}

/// `X-RateLimit-Reset-After`: a number of seconds.
pub open spec fn reset_after_delay(values: Map<Seq<char>, Seq<Seq<u8>>>) -> Option<int> {
    match header_text(values, "x-ratelimit-reset-after"@) {
        None => None,
        Some(t) => match seconds_reading(t) {
            Some(secs) => Some(secs * nanos_per_sec()),
            None => None,
        },
    }
}

/// `X-RateLimit-Reset`: the Unix second at which the limit resets; zero once
/// it has passed.
pub open spec fn reset_delay(values: Map<Seq<char>, Seq<Seq<u8>>>, now: Option<int>) -> Option<int> {
    match header_text(values, "x-ratelimit-reset"@) {
        None => None,
        Some(t) => match (whole_number(t), now) {
            (Some(secs), Some(n)) => match span_until(secs, n) {
                Some(d) => Some(d),
                None => Some(0),
            },
            _ => None,
        },
    }
}

/// The delay the headers ask for, at the time `now` (nanoseconds since the
/// Unix epoch, `None` where the clock reads before it): the first of
/// `Retry-After`, `X-RateLimit-Reset-After` and `X-RateLimit-Reset` that gives
/// one.
pub open spec fn header_delay(values: Map<Seq<char>, Seq<Seq<u8>>>, now: Option<int>) -> Option<int> {
    match retry_after_delay(values, now) {
        Some(d) => Some(d),
        None => match reset_after_delay(values) {
            Some(d) => Some(d),
            None => reset_delay(values, now),
        },
    }
}

/// The span of an optional duration.
pub open spec fn duration_option_view(d: Option<Duration>) -> Option<int> {
    match d {
        Some(x) => Some(x@),
        None => None,
    }
}

/// A time of the clock: a span since the Unix epoch, if the clock reads after
/// it.
pub open spec fn is_clock_reading(now: Option<int>) -> bool {
    now matches Some(n) ==> 0 <= n <= max_duration_nanos()
}

/// `header_text`, computed.
fn header_text_of(headers: &http::HeaderMap, name: &str) -> (res: Option<Vec<u8>>)
    requires
        is_lower_header_name(name@),
    ensures
        match res {
            Some(t) => header_text(header_map_values(*headers), name@) == Some(t@),
            None => header_text(header_map_values(*headers), name@) is None,
        },
{
    match header_get(headers, name) {
        None => None,
        Some(bytes) => visible_trimmed(&bytes),
    }
}

/// The span until the whole second `target`, counted from `now`.
fn span_until_of(target: u64, now: &Duration) -> (res: Option<Duration>)
    ensures
        duration_option_view(res) == span_until(target, now@),
{
    let t: u128 = target as u128 * 1_000_000_000;
    let n = now.as_nanos();
    if t > n {
        Some(Duration::from_nanos_total(t - n))
    } else {
        None
    }
}

/// The delay the headers ask for, read at the time `now`.
pub fn retry_after_from_headers_at(headers: &http::HeaderMap, now: Option<Duration>) -> (res: Option<Duration>)
    ensures
        duration_option_view(res) == header_delay(header_map_values(*headers), duration_option_view(now)),
{
    let ghost values = header_map_values(*headers);
    let ghost now_view = duration_option_view(now);
    proof {
        reveal_strlit("retry-after");
        reveal_strlit("x-ratelimit-reset-after");
        reveal_strlit("x-ratelimit-reset");
    }
    // 1. Retry-After: seconds, or an HTTP date.
    if let Some(text) = header_text_of(headers, "retry-after") {
        if let Some(secs) = seconds_reading_of(&text) {
            return Some(Duration::from_secs(secs));
        }
        let date = ascii_string(&text);
        if let Some(target) = parse_http_date_secs(date.as_str()) {
            if let Some(n) = &now {
                if let Some(d) = span_until_of(target, n) {
                    return Some(d);
                }
            }
        }
    }
    assert(retry_after_delay(values, now_view) is None);
    // 2. X-RateLimit-Reset-After: seconds.
    if let Some(text) = header_text_of(headers, "x-ratelimit-reset-after") {
        if let Some(secs) = seconds_reading_of(&text) {
            return Some(Duration::from_secs(secs));
        }
    }
    assert(reset_after_delay(values) is None);
    // 3. X-RateLimit-Reset: Unix seconds.
    if let Some(text) = header_text_of(headers, "x-ratelimit-reset") {
        if let Some(secs) = parse_whole_number(&text) {
            if let Some(n) = &now {
                return match span_until_of(secs, n) {
                    Some(d) => Some(d),
                    None => Some(Duration::zero()),
                };
            }
        }
    }
    None
}

/// The time of the clock, as a span since the Unix epoch.
fn clock_now() -> (res: Option<Duration>)
    ensures
        is_clock_reading(duration_option_view(res)),
{
    match unix_now() {
        Some((secs, nanos)) => {
            let d = Duration::new(secs, nanos);
            proof {
                assert(d@ <= max_duration_nanos());
            }
            Some(d)
        },
        None => None,
    }
}

/// The delay the headers ask for, read at the time of the call.
pub fn retry_after_from_headers(headers: &http::HeaderMap) -> (res: Option<Duration>)
    ensures
        exists|now: Option<int>|
            is_clock_reading(now) && duration_option_view(res) == header_delay(header_map_values(*headers), now),
{
    let now = clock_now();
    retry_after_from_headers_at(headers, now)
}


// ---------------------------------------------------------------------------
// Transport errors and the retry policy
// ---------------------------------------------------------------------------

/// An error of the HTTP transport.
#[derive(Debug)]
pub enum TransportError {
    /// The server answered with an error status.
    Http {
        status: http::StatusCode,
        url: Option<String>,
        headers: Option<http::HeaderMap>,
        body: Option<String>,
    },
    /// No attempt was left.
    RetryLimit,
    /// The request timed out.
    Timeout,
    /// The network failed.
    Network(String),
    /// The request could not be built.
    Build(String),
}

/// Which errors are worth another attempt.
#[derive(Debug, Clone, Copy, PartialEq, Eq, Structural)]
pub struct RetryOn {
    pub retry_429: bool,
    pub retry_5xx: bool,
    pub retry_transport: bool,
}

/// How often, and after how long, a request is tried again.
#[derive(Debug, Clone, Copy, PartialEq, Eq)]
pub struct RetryPolicy {
    pub max_attempts: u64,
    pub base_delay: Duration,
    pub retry_on: RetryOn,
}

/// Whether `on` asks for another attempt after `err` at attempt `attempt`:
/// never once `max_attempts` attempts are used up; for an HTTP error when
/// its status is 429 and 429s are retried, or a server error (500 to 599)
/// and those are retried; for a timeout or a network error when transport
/// errors are retried; never otherwise.
pub open spec fn retry_wanted(on: RetryOn, err: TransportError, attempt: u64, max_attempts: u64) -> bool {
    attempt < max_attempts && match err {
        TransportError::Http { status, .. } => {
            let code = status_code_number(status);
            (on.retry_429 && code == 429) || (on.retry_5xx && 500 <= code <= 599)
        },
        TransportError::Timeout | TransportError::Network(_) => on.retry_transport,
        _ => false,
    }
}

impl RetryOn {
    /// Whether to try again after `err` at attempt `attempt` of
    /// `max_attempts`.
    pub fn should_retry(&self, err: &TransportError, attempt: u64, max_attempts: u64) -> (res: bool)
        ensures
            res == retry_wanted(*self, *err, attempt, max_attempts),
    {
        if attempt >= max_attempts {
            return false;
        }
        match err {
            TransportError::Http { status, .. } => {
                let code = status_as_u16(status);
                (self.retry_429 && code == 429) || (self.retry_5xx && 500 <= code && code <= 599)
            },
            TransportError::Timeout | TransportError::Network(_) => self.retry_transport,
            _ => false,
        }
    }
}

/// The delay an error's headers ask for at the time `now`: only an HTTP
/// error that carries headers asks for one, whatever its status.
pub open spec fn error_delay(err: TransportError, now: Option<int>) -> Option<int> {
    match err {
        TransportError::Http { headers: Some(h), .. } => header_delay(header_map_values(h), now),
        _ => None,
    }
}

/// Whether the error is a 429 response: only such a response waits as its
/// headers ask.
pub open spec fn is_rate_limited(err: TransportError) -> bool {
    err matches TransportError::Http { status, .. } && status_code_number(status) == 429
}

/// The delay that the wait before a retry takes from the error's headers:
/// the one they ask for where the error is a 429 response, none otherwise.
pub open spec fn server_delay(err: TransportError, now: Option<int>) -> Option<int> {
    if is_rate_limited(err) {
        error_delay(err, now)
    } else {
        None
    }
}

/// Whether the headers ask for a delay whatever the clock reads: a
/// `Retry-After` or an `X-RateLimit-Reset-After` that gives a number of
/// seconds.
pub open spec fn clock_free_header_delay(values: Map<Seq<char>, Seq<Seq<u8>>>) -> bool {
    (header_text(values, "retry-after"@) matches Some(t) && seconds_reading(t) is Some)
        || reset_after_delay(values) is Some
}

/// Whether the error is a 429 response whose headers ask for a delay
/// whatever the clock reads.
pub open spec fn asks_clock_free_delay(err: TransportError) -> bool {
    match err {
        TransportError::Http { status, headers: Some(h), .. } => status_code_number(status) == 429
            && clock_free_header_delay(header_map_values(h)),
        _ => false,
    }
}

/// Whether the error is a 429 response whose headers ask for a delay
/// whatever the clock reads.
pub fn has_clock_free_delay(err: &TransportError) -> (res: bool)
    ensures
        res == asks_clock_free_delay(*err),
{
    proof {
        reveal_strlit("retry-after");
        reveal_strlit("x-ratelimit-reset-after");
    }
    match err {
        TransportError::Http { status, headers: Some(h), .. } => {
            if status_as_u16(status) != 429 {
                return false;
            }
            if let Some(text) = header_text_of(h, "retry-after") {
                if seconds_reading_of(&text).is_some() {
                    return true;
                }
            }
            match header_text_of(h, "x-ratelimit-reset-after") {
                Some(text) => seconds_reading_of(&text).is_some(),
                None => false,
            }
        },
        _ => false,
    }
}

/// A delay asked for whatever the clock reads is asked for at every time.
proof fn lemma_clock_free_delay(err: TransportError, now: Option<int>)
    requires
        asks_clock_free_delay(err),
    ensures
        server_delay(err, now) is Some,
{
}

/// The delay an error's headers ask for, read at the time `now`.
pub fn retry_after_from_err_at(err: &TransportError, now: Option<Duration>) -> (res: Option<Duration>)
    ensures
        duration_option_view(res) == error_delay(*err, duration_option_view(now)),
{
    match err {
        TransportError::Http { headers: Some(h), .. } => retry_after_from_headers_at(h, now),
        _ => None,
    }
}

/// The delay an error's headers ask for, read at the time of the call.
pub fn retry_after_from_err(err: &TransportError) -> (res: Option<Duration>)
    ensures
        exists|now: Option<int>| is_clock_reading(now) && duration_option_view(res) == error_delay(*err, now),
        !(err matches TransportError::Http { headers: Some(_), .. }) ==> res is None,
{
    match err {
        TransportError::Http { headers: Some(h), .. } => retry_after_from_headers(h),
        _ => {
            assert(is_clock_reading(None) && error_delay(*err, None) is None);
            None
        },
    }
}

// ---------------------------------------------------------------------------
// Back-off
// ---------------------------------------------------------------------------

/// The longest wait before any retry, whatever a server asks for: 60 seconds.
pub const MAX_RETRY_AFTER_SECS: u64 = 60;

pub open spec fn max_retry_after_nanos() -> int {
    MAX_RETRY_AFTER_SECS * nanos_per_sec()
}

/// The longest wait before any retry.
pub fn max_retry_after() -> (res: Duration)
    ensures
        res@ == max_retry_after_nanos(),
{
    Duration::from_secs(MAX_RETRY_AFTER_SECS)
}

/// `2u64.saturating_pow(e)`.
pub open spec fn saturating_pow2(e: nat) -> nat {
    if power(2, e) > u64::MAX {
        u64::MAX as nat
    } else {
        power(2, e)
    }
}

/// The factor for attempt `attempt`: two to the power of one less than the
/// attempt taken as a `u32`, saturated at `u64::MAX`.
pub open spec fn attempt_factor(attempt: u64) -> nat {
    saturating_pow2((attempt % 0x1_0000_0000 - 1) as nat)
}

/// The undisturbed back-off in whole milliseconds for attempt `attempt`
/// from the base delay `base` (in nanoseconds): the base delay's whole
/// milliseconds (taken modulo 2^64) times the attempt's factor, saturated at
/// `u64::MAX`.
pub open spec fn backoff_raw_millis(base: int, attempt: u64) -> int {
    let millis = (base / 1_000_000) % 0x1_0000_0000_0000_0000;
    if millis * attempt_factor(attempt) > u64::MAX {
        u64::MAX as int
    } else {
        millis * attempt_factor(attempt)
    }
}

/// The exponential back-off for attempt `attempt` from the base delay `base`
/// (both in nanoseconds and milliseconds as the code reads them), with the
/// jitter `jitter_ppm` millionths: the base delay itself for attempt
/// zero; otherwise the base delay's whole milliseconds (taken modulo 2^64)
/// times the attempt's factor, saturated at `u64::MAX`, times the jitter,
/// rounded down to whole milliseconds and capped at 60 seconds.
pub open spec fn backoff_delay(base: int, attempt: u64, jitter_ppm: int) -> int {
    if attempt == 0 {
        base
    } else {
        let raw = backoff_raw_millis(base, attempt);
        let jittered = raw * jitter_ppm / 1_000_000;
        if jittered * 1_000_000 > max_retry_after_nanos() {
            max_retry_after_nanos()
        } else {
            jittered * 1_000_000
        }
    }
}

/// Whether attempt `attempt` is one that the back-off computes for: zero, or
/// one whose low 32 bits are not all zero.
pub open spec fn is_backoff_attempt(attempt: u64) -> bool {
    attempt == 0 || attempt % 0x1_0000_0000 != 0
}

/// Whether the back-off computes for attempt `attempt`.
pub fn is_backoff_attempt_exec(attempt: u64) -> (res: bool)
    ensures
        res == is_backoff_attempt(attempt),
{
    attempt == 0 || attempt % 0x1_0000_0000 != 0
}

/// Powers of two grow with the exponent.
proof fn lemma_power2_grows(a: nat, b: nat)
    requires
        a <= b,
    ensures
        power(2, a) <= power(2, b),
    decreases b - a,
{
    if a < b {
        lemma_power2_grows(a, (b - 1) as nat);
    }
}

/// `2u64.saturating_pow(e)`, computed.
fn saturating_pow2_of(e: u32) -> (res: u64)
    ensures
        res == saturating_pow2(e as nat),
{
    let mut f: u64 = 1;
    let mut k: u32 = 0;
    while k < e && f <= u64::MAX / 2
        invariant
            k <= e,
            f == power(2, k as nat),
        decreases e - k,
    {
        f = f * 2;
        k = k + 1;
    }
    if k < e {
        proof {
            lemma_power2_grows((k + 1) as nat, e as nat);
        }
        u64::MAX
    } else {
        f
    }
}

/// The exponential back-off for attempt `attempt` with a given jitter in
/// millionths.
pub fn backoff_with_jitter(base: Duration, attempt: u64, jitter_ppm: u64) -> (res: Duration)
    requires
        is_backoff_attempt(attempt),
    ensures
        res@ == backoff_delay(base@, attempt, jitter_ppm as int),
{
    if attempt == 0 {
        return base;
    }
    let low = (attempt % 0x1_0000_0000) as u32;
    let factor = saturating_pow2_of(low - 1);
    let millis = (base.as_millis() % 0x1_0000_0000_0000_0000) as u64;
    assert(millis as u128 * factor as u128 <= u64::MAX as u128 * u64::MAX as u128) by (nonlinear_arith)
        requires
            millis <= u64::MAX,
            factor <= u64::MAX,
    ;
    let product = millis as u128 * factor as u128;
    let raw: u64 = if product > u64::MAX as u128 { u64::MAX } else { product as u64 };
    assert(raw as u128 * jitter_ppm as u128 <= u64::MAX as u128 * u64::MAX as u128) by (nonlinear_arith)
        requires
            raw <= u64::MAX,
            jitter_ppm <= u64::MAX,
    ;
    let jittered = raw as u128 * jitter_ppm as u128 / 1_000_000;
    if jittered > 60_000 {
        max_retry_after()
    } else {
        Duration::from_millis(jittered as u64)
    }
}

/// `rand::rng().random_range(900_000..1_100_000)`: a jitter factor in
/// millionths between 0.9 and 1.1. The contract claims only that range.
#[verifier::external_body]
fn jitter_ppm() -> (res: u64)
    ensures
        900_000 <= res < 1_100_000,
{
    rand::rng().random_range(900_000u64..1_100_000)
}

/// The exponential back-off for attempt `attempt`, with a jitter drawn at
/// random between 0.9 and 1.1.
pub fn backoff(base: Duration, attempt: u64) -> (res: Duration)
    requires
        is_backoff_attempt(attempt),
    ensures
        exists|j: int| 900_000 <= j < 1_100_000 && res@ == backoff_delay(base@, attempt, j),
{
    let j = jitter_ppm();
    backoff_with_jitter(base, attempt, j)
}

/// The wait before the next attempt, at the time `now` and with the jitter
/// `jitter_ppm`: for a 429 response, the delay its headers ask for,
/// capped at 60 seconds; otherwise the exponential back-off.
pub open spec fn retry_delay(base: int, attempt: u64, err: TransportError, now: Option<int>, jitter_ppm: int) -> int {
    match server_delay(err, now) {
        Some(d) => if d > max_retry_after_nanos() {
            max_retry_after_nanos()
        } else {
            d
        },
        None => backoff_delay(base, attempt, jitter_ppm),
    }
}

/// The wait before the next attempt, read at the time `now` and with the
/// jitter `jitter_ppm`.
pub fn backoff_for_at(
    base: Duration,
    attempt: u64,
    err: &TransportError,
    now: Option<Duration>,
    jitter_ppm: u64,
) -> (res: Duration)
    requires
        server_delay(*err, duration_option_view(now)) is None ==> is_backoff_attempt(attempt),
    ensures
        res@ == retry_delay(base@, attempt, *err, duration_option_view(now), jitter_ppm as int),
{
    let asked = match err {
        TransportError::Http { status, .. } => if status_as_u16(status) == 429 {
            retry_after_from_err_at(err, now)
        } else {
            None
        },
        _ => None,
    };
    match asked {
        Some(d) => {
            let cap = max_retry_after();
            if d.as_nanos() > cap.as_nanos() {
                cap
            } else {
                d
            }
        },
        None => backoff_with_jitter(base, attempt, jitter_ppm),
    }
}

/// A wait that `retry_delay` gives for some reading of the clock and some
/// jitter between 0.9 and 1.1.
pub open spec fn is_possible_retry_delay(d: int, base: int, attempt: u64, err: TransportError) -> bool {
    exists|now: Option<int>, j: int|
        is_clock_reading(now) && 900_000 <= j < 1_100_000 && d == #[trigger] retry_delay(base, attempt, err, now, j)
}

/// The wait before the next attempt: for a 429 response, the delay its
/// headers ask for, capped at 60 seconds; otherwise the exponential back-off
/// with random jitter.
pub fn backoff_for(base: Duration, attempt: u64, err: &TransportError) -> (res: Duration)
    requires
        is_backoff_attempt(attempt) || asks_clock_free_delay(*err),
    ensures
        is_possible_retry_delay(res@, base@, attempt, *err),
{
    let now = clock_now();
    proof {
        if !is_backoff_attempt(attempt) {
            lemma_clock_free_delay(*err, duration_option_view(now));
        }
    }
    let j = jitter_ppm();
    backoff_for_at(base, attempt, err, now, j)
}


// ---------------------------------------------------------------------------
// The retry loop
// ---------------------------------------------------------------------------

/// What follows a failed attempt.
#[derive(Debug)]
pub enum RetryStep {
    /// Wait this long, then try again.
    Wait(Duration),
    /// Give up with this error.
    Fail(TransportError),
}

/// The decision after attempt `attempt` failed with `err`: wait and try
/// again where the policy retries the error, with the wait for the next
/// attempt; give up with the error otherwise.
pub fn next_retry_step(policy: &RetryPolicy, attempt: u64, err: TransportError) -> (res: RetryStep)
    requires
        retry_wanted(policy.retry_on, err, attempt, policy.max_attempts) ==> (is_backoff_attempt(
            (attempt + 1) as u64,
        ) || asks_clock_free_delay(err)),
    ensures
        match res {
            RetryStep::Wait(d) => retry_wanted(policy.retry_on, err, attempt, policy.max_attempts)
                && is_possible_retry_delay(d@, policy.base_delay@, (attempt + 1) as u64, err),
            RetryStep::Fail(e) => !retry_wanted(policy.retry_on, err, attempt, policy.max_attempts) && e == err,
        },
{
    if policy.retry_on.should_retry(&err, attempt, policy.max_attempts) {
        let delay = backoff_for(policy.base_delay, attempt + 1, &err);
        RetryStep::Wait(delay)
    } else {
        RetryStep::Fail(err)
    }
}

// ---------------------------------------------------------------------------
// Laws
// ---------------------------------------------------------------------------

/// Once the attempts are used up, no error is retried.
pub proof fn law_no_retry_after_last_attempt(on: RetryOn, err: TransportError, attempt: u64, max_attempts: u64)
    requires
        attempt >= max_attempts,
    ensures
        !retry_wanted(on, err, attempt, max_attempts),
{
}

/// A `Retry-After` that gives a number of seconds asks for that delay
/// whatever the clock reads.
pub proof fn law_retry_after_seconds_ignore_clock(
    values: Map<Seq<char>, Seq<Seq<u8>>>,
    now1: Option<int>,
    now2: Option<int>,
)
    requires
        header_text(values, "retry-after"@) matches Some(t) && seconds_reading(t) is Some,
    ensures
        header_delay(values, now1) == header_delay(values, now2),
        header_delay(values, now1) == Some(
            seconds_reading(header_text(values, "retry-after"@)->0)->0 * nanos_per_sec(),
        ),
{
}

/// Only a 429 response waits as its headers ask: every other error waits the
/// exponential back-off, whatever headers it carries.
pub proof fn law_only_429_uses_header_delay(base: int, attempt: u64, err: TransportError, now: Option<int>, j: int)
    requires
        !(err matches TransportError::Http { status, .. } && status_code_number(status) == 429),
    ensures
        retry_delay(base, attempt, err, now, j) == backoff_delay(base, attempt, j),
{
}

/// Errors other than HTTP errors, timeouts and network errors are never
/// retried.
pub proof fn law_other_errors_not_retried(on: RetryOn, err: TransportError, attempt: u64, max_attempts: u64)
    requires
        err is RetryLimit || err is Build,
    ensures
        !retry_wanted(on, err, attempt, max_attempts),
{
}

/// No wait before a retry exceeds 60 seconds, whatever the headers ask for,
/// from the first retry on.
pub proof fn law_retry_delay_capped(base: int, attempt: u64, err: TransportError, now: Option<int>, j: int)
    requires
        attempt > 0,
    ensures
        retry_delay(base, attempt, err, now, j) <= max_retry_after_nanos(),
{
}

/// Without headers that ask for a delay, the wait grows with the jitter
/// factor: it lies between 0.9 and 1.1 times the undisturbed back-off
/// (rounded down to whole milliseconds), unless the 60 second cap applies.
pub proof fn law_backoff_jitter_bounds(base: int, attempt: u64, j: int)
    requires
        attempt > 0,
        900_000 <= j < 1_100_000,
        0 <= base,
    ensures
        ({
            let raw = backoff_raw_millis(base, attempt);
            let d = backoff_delay(base, attempt, j);
            d == max_retry_after_nanos() || (raw * 900_000 / 1_000_000 * 1_000_000 <= d && d <= raw * 1_100_000
                / 1_000_000 * 1_000_000)
        }),
{
    let raw = backoff_raw_millis(base, attempt);
    assert(0 <= raw);
    assert(raw * 900_000 <= raw * j <= raw * 1_100_000) by (nonlinear_arith)
        requires
            0 <= raw,
            900_000 <= j < 1_100_000,
    ;
    assert(raw * 900_000 / 1_000_000 <= raw * j / 1_000_000 <= raw * 1_100_000 / 1_000_000) by (nonlinear_arith)
        requires
            raw * 900_000 <= raw * j <= raw * 1_100_000,
    ;
}

/// Every whole number of milliseconds from 0.9 times the undisturbed
/// back-off up to just below 1.1 times it is a wait that some jitter gives,
/// while the back-off stays within a thousand seconds and the wait within
/// the 60 second cap.
pub proof fn law_backoff_jitter_reaches(base: int, attempt: u64, wait_millis: int)
    requires
        attempt > 0,
        0 <= base,
        0 < backoff_raw_millis(base, attempt) <= 1_000_000,
        backoff_raw_millis(base, attempt) * 900_000 <= wait_millis * 1_000_000,
        wait_millis * 1_000_000 + backoff_raw_millis(base, attempt) <= backoff_raw_millis(base, attempt)
            * 1_100_000,
        wait_millis <= 60_000,
    ensures
        exists|j: int|
            900_000 <= j < 1_100_000 && #[trigger] backoff_delay(base, attempt, j) == wait_millis * 1_000_000,
{
    let raw = backoff_raw_millis(base, attempt);
    let target = wait_millis * 1_000_000;
    let j = (target + raw - 1) / raw;
    vstd::arithmetic::div_mod::lemma_fundamental_div_mod(target + raw - 1, raw);
    vstd::arithmetic::div_mod::lemma_mod_pos_bound(target + raw - 1, raw);
    let r = (target + raw - 1) % raw;
    assert(raw * j + r == target + raw - 1);
    assert(raw * j >= target);
    assert(raw * j < target + raw);
    assert(j >= 900_000) by (nonlinear_arith)
        requires
            raw * j >= target,
            raw * 900_000 <= target,
            raw * j < target + raw,
            raw > 0,
    ;
    assert(j < 1_100_000) by (nonlinear_arith)
        requires
            raw * j < target + raw,
            target + raw <= raw * 1_100_000,
            raw > 0,
    ;
    assert(raw * j / 1_000_000 == wait_millis) by (nonlinear_arith)
        requires
            raw * j >= wait_millis * 1_000_000,
            raw * j < wait_millis * 1_000_000 + raw,
            raw <= 1_000_000,
    ;
    assert(backoff_delay(base, attempt, j) == target);
}

} // verus!
