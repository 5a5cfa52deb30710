//! Decimal numbers read as IEEE 754 doubles: the nearest double to a
//! decimal fraction, with ties to the even significand, computed exactly on
//! decimal digit strings.

use vstd::prelude::*;
use crate::retry::{all_digits, digits_value, is_digit, power};

verus! {

// ---------------------------------------------------------------------------
// Powers
// ---------------------------------------------------------------------------

/// Powers of a positive base are positive.
pub proof fn lemma_power_pos(b: nat, e: nat)
    requires
        b >= 1,
    ensures
        power(b, e) >= 1,
    decreases e,
{
    if e > 0 {
        lemma_power_pos(b, (e - 1) as nat);
        assert(b * power(b, (e - 1) as nat) >= 1) by (nonlinear_arith)
            requires
                b >= 1,
                power(b, (e - 1) as nat) >= 1,
        ;
    }
}

/// `b^(x + y) = b^x * b^y`.
pub proof fn lemma_power_adds(b: nat, x: nat, y: nat)
    ensures
        power(b, x + y) == power(b, x) * power(b, y),
    decreases y,
{
    if y > 0 {
        lemma_power_adds(b, x, (y - 1) as nat);
        let pp = power(b, x);
        let q = power(b, (y - 1) as nat);
        assert((x + y - 1) as nat == x + (y - 1) as nat);
        assert(power(b, (x + y - 1) as nat) == pp * q);
        assert(power(b, x + y) == b * power(b, (x + y - 1) as nat));
        assert(power(b, y) == b * q);
        assert(b * (pp * q) == pp * (b * q)) by (nonlinear_arith);
    } else {
        assert(x + y == x);
        assert(power(b, y) == 1);
    }
}

/// Powers of a base of at least one grow with the exponent.
pub proof fn lemma_power_grows(b: nat, x: nat, y: nat)
    requires
        b >= 1,
        x <= y,
    ensures
        power(b, x) <= power(b, y),
    decreases y - x,
{
    if x < y {
        lemma_power_grows(b, x, (y - 1) as nat);
        lemma_power_pos(b, (y - 1) as nat);
        assert(power(b, (y - 1) as nat) <= b * power(b, (y - 1) as nat)) by (nonlinear_arith)
            requires
                b >= 1,
                power(b, (y - 1) as nat) >= 1,
        ;
    }
}

/// Powers of two grow strictly with the exponent.
pub proof fn lemma_power2_strict(x: nat, y: nat)
    requires
        x < y,
    ensures
        power(2, x) < power(2, y),
{
    lemma_power_grows(2, x, (y - 1) as nat);
    lemma_power_pos(2, (y - 1) as nat);
}

// ---------------------------------------------------------------------------
// Decimal digit strings
// ---------------------------------------------------------------------------

/// The digits of `x` followed by those of `y` write `x * 10^|y| + y`.
pub proof fn lemma_digits_concat(x: Seq<u8>, y: Seq<u8>)
    ensures
        digits_value(x + y) == digits_value(x) * power(10, y.len()) + digits_value(y),
    decreases y.len(),
{
    if y.len() == 0 {
        assert(x + y =~= x);
        assert(power(10, y.len()) == 1);
        assert(digits_value(y) == 0);
    } else {
        let y0 = y.drop_last();
        assert((x + y).drop_last() =~= x + y0);
        assert((x + y).last() == y.last());
        lemma_digits_concat(x, y0);
        let a = digits_value(x);
        let p = power(10, y0.len());
        let c = digits_value(y0);
        assert(digits_value(x + y) == digits_value(x + y0) * 10 + (y.last() - 48) as nat);
        assert(digits_value(y) == c * 10 + (y.last() - 48) as nat);
        assert(y0.len() == (y.len() - 1) as nat);
        assert(power(10, y.len()) == 10 * p);
        assert((a * p + c) * 10 == a * (10 * p) + c * 10) by (nonlinear_arith);
    }
}

/// `n` digits write less than `10^n`.
pub proof fn lemma_digits_bound(x: Seq<u8>)
    requires
        all_digits(x),
    ensures
        digits_value(x) < power(10, x.len()),
    decreases x.len(),
{
    if x.len() > 0 {
        let x0 = x.drop_last();
        assert(all_digits(x0)) by {
            assert forall|i: int| 0 <= i < x0.len() implies is_digit(#[trigger] x0[i]) by {
                assert(x0[i] == x[i]);
            }
        }
        lemma_digits_bound(x0);
        assert(is_digit(x[x.len() - 1]));
        let v = digits_value(x0);
        let p = power(10, x0.len());
        assert(v * 10 + 9 < 10 * p) by (nonlinear_arith)
            requires
                v < p,
        ;
    }
}

/// Digits that start with a nonzero digit write at least `10^(n-1)`.
pub proof fn lemma_digits_leading(x: Seq<u8>)
    requires
        all_digits(x),
        x.len() > 0,
        x[0] != 48,
    ensures
        digits_value(x) >= power(10, (x.len() - 1) as nat),
{
    let head = x.take(1);
    let tail = x.skip(1);
    assert(head + tail =~= x);
    lemma_digits_concat(head, tail);
    assert(head.drop_last() =~= Seq::<u8>::empty());
    assert(digits_value(head.drop_last()) == 0);
    assert(head.last() == x[0]);
    assert(digits_value(head) == digits_value(head.drop_last()) * 10 + (head.last() - 48) as nat);
    assert(digits_value(head) == (x[0] - 48) as nat);
    assert(is_digit(x[0]));
    let p = power(10, tail.len());
    assert(digits_value(head) * p >= p) by (nonlinear_arith)
        requires
            digits_value(head) >= 1,
    ;
}

/// `n` zero digits.
pub open spec fn zero_digits(n: nat) -> Seq<u8> {
    Seq::new(n, |i: int| 48u8)
}

/// Zero digits write zero.
pub proof fn lemma_zero_digits_value(n: nat)
    ensures
        digits_value(zero_digits(n)) == 0,
    decreases n,
{
    if n > 0 {
        assert(zero_digits(n).drop_last() =~= zero_digits((n - 1) as nat));
        lemma_zero_digits_value((n - 1) as nat);
    }
}

/// Appending `n` zero digits multiplies by `10^n`.
pub proof fn lemma_append_zeros(x: Seq<u8>, n: nat)
    ensures
        digits_value(x + zero_digits(n)) == digits_value(x) * power(10, n),
{
    lemma_digits_concat(x, zero_digits(n));
    lemma_zero_digits_value(n);
}

/// Leading zero digits change nothing.
pub proof fn lemma_strip_zeros(x: Seq<u8>, z: int)
    requires
        0 <= z <= x.len(),
        forall|i: int| 0 <= i < z ==> #[trigger] x[i] == 48,
    ensures
        digits_value(x) == digits_value(x.skip(z)),
{
    assert(x.take(z) =~= zero_digits(z as nat));
    assert(x.take(z) + x.skip(z) =~= x);
    lemma_digits_concat(x.take(z), x.skip(z));
    lemma_zero_digits_value(z as nat);
}

/// A digit string without a leading zero.
pub open spec fn is_normal(x: Seq<u8>) -> bool {
    all_digits(x) && (x.len() == 0 || x[0] != 48)
}

/// The sign of `a - b`.
pub open spec fn sign_of(a: int, b: int) -> i8 {
    if a < b {
        -1i8
    } else if a == b {
        0i8
    } else {
        1i8
    }
}

/// Digits of equal length compare as their first differing digit does.
proof fn lemma_digits_first_difference(x: Seq<u8>, y: Seq<u8>, i: int)
    requires
        all_digits(x),
        all_digits(y),
        x.len() == y.len(),
        0 <= i < x.len(),
        x.take(i) == y.take(i),
        x[i] < y[i],
    ensures
        digits_value(x) < digits_value(y),
{
    let m = (x.len() - i - 1) as nat;
    let px = x.take(i + 1);
    let py = y.take(i + 1);
    assert(px + x.skip(i + 1) =~= x);
    assert(py + y.skip(i + 1) =~= y);
    lemma_digits_concat(px, x.skip(i + 1));
    lemma_digits_concat(py, y.skip(i + 1));
    assert(px.drop_last() =~= x.take(i));
    assert(py.drop_last() =~= y.take(i));
    let xs = x.skip(i + 1);
    assert(all_digits(xs)) by {
        assert forall|k: int| 0 <= k < xs.len() implies is_digit(#[trigger] xs[k]) by {
            assert(xs[k] == x[i + 1 + k]);
        }
    }
    lemma_digits_bound(xs);
    let p = power(10, m);
    let c = digits_value(x.take(i));
    let dx = digits_value(px);
    let dy = digits_value(py);
    assert(dx == c * 10 + (x[i] - 48) as nat);
    assert(dy == c * 10 + (y[i] - 48) as nat);
    assert(dx + 1 <= dy);
    assert(dx * p + digits_value(xs) < dy * p) by (nonlinear_arith)
        requires
            dx + 1 <= dy,
            digits_value(xs) < p,
    ;
}

/// The order of the numbers that two normal digit strings write.
pub fn compare_digits(x: &Vec<u8>, y: &Vec<u8>) -> (res: i8)
    requires
        is_normal(x@),
        is_normal(y@),
    ensures
        res == sign_of(digits_value(x@) as int, digits_value(y@) as int),
{
    let n = x.len();
    let m = y.len();
    if n != m {
        proof {
            if n > m {
                lemma_digits_leading(x@);
                lemma_digits_bound(y@);
                lemma_power_grows(10, m as nat, (n - 1) as nat);
            } else {
                lemma_digits_leading(y@);
                lemma_digits_bound(x@);
                lemma_power_grows(10, n as nat, (m - 1) as nat);
            }
        }
        return if n > m { 1 } else { -1 };
    }
    let mut i: usize = 0;
    while i < n
        invariant
            n == x@.len() == y@.len(),
            all_digits(x@),
            all_digits(y@),
            i <= n,
            x@.take(i as int) == y@.take(i as int),
        decreases n - i,
    {
        if x[i] != y[i] {
            proof {
                if x@[i as int] < y@[i as int] {
                    lemma_digits_first_difference(x@, y@, i as int);
                } else {
                    lemma_digits_first_difference(y@, x@, i as int);
                }
            }
            return if x[i] < y[i] { -1 } else { 1 };
        }
        assert(x@.take(i + 1) =~= x@.take(i as int).push(x@[i as int]));
        assert(y@.take(i + 1) =~= y@.take(i as int).push(y@[i as int]));
        i = i + 1;
    }
    assert(x@.take(n as int) =~= x@);
    assert(y@.take(n as int) =~= y@);
    0
}


/// One more digit in front: `d` then the digits `s`.
proof fn lemma_digit_in_front(d: u8, s: Seq<u8>)
    requires
        is_digit(d),
    ensures
        digits_value(seq![d] + s) == (d - 48) * power(10, s.len()) + digits_value(s),
{
    lemma_digits_concat(seq![d], s);
    assert(seq![d].drop_last() =~= Seq::<u8>::empty());
    assert(digits_value(Seq::<u8>::empty()) == 0);
    assert(seq![d].last() == d);
    assert(digits_value(seq![d]) == digits_value(seq![d].drop_last()) * 10 + (seq![d].last() - 48) as nat);
}

/// The number that digits stored least significant first write.
pub open spec fn low_first_value(s: Seq<u8>) -> nat
    decreases s.len(),
{
    if s.len() == 0 {
        0
    } else {
        low_first_value(s.drop_last()) + (s.last() - 48) as nat * power(10, (s.len() - 1) as nat)
    }
}

/// Digits stored least significant first, one more at the bottom.
#[verifier::rlimit(40)]
proof fn lemma_low_first_front(d: u8, t: Seq<u8>)
    requires
        is_digit(d),
    ensures
        low_first_value(seq![d] + t) == (d - 48) + 10 * low_first_value(t),
    decreases t.len(),
{
    let u = seq![d] + t;
    let dd = (d - 48) as nat;
    if t.len() == 0 {
        assert(u.drop_last() =~= Seq::<u8>::empty());
        assert(low_first_value(Seq::<u8>::empty()) == 0);
        assert(u.last() == d);
        assert(u.len() == 1);
        assert(power(10, 0) == 1);
        assert(low_first_value(u) == low_first_value(u.drop_last()) + (u.last() - 48) as nat * power(10, 0));
        assert(low_first_value(u) == dd * 1);
        assert(low_first_value(t) == 0);
    } else {
        let t0 = t.drop_last();
        assert(u.drop_last() =~= seq![d] + t0);
        lemma_low_first_front(d, t0);
        let p = power(10, t0.len());
        assert(t0.len() == (t.len() - 1) as nat);
        assert(power(10, t.len()) == 10 * p);
        assert((u.len() - 1) as nat == t.len());
        assert(u.last() == t.last());
        let x = (t.last() - 48) as nat;
        let lu = low_first_value(u);
        let l0 = low_first_value(seq![d] + t0);
        let lt0 = low_first_value(t0);
        assert(lu == l0 + x * power(10, t.len()));
        assert(l0 == dd + 10 * lt0);
        assert(low_first_value(t) == lt0 + x * p);
        assert(x * (10 * p) == 10 * (x * p)) by (nonlinear_arith);
        assert(lu == dd + 10 * (lt0 + x * p));
    }
}

/// Digits stored least significant first, written most significant first
/// without leading zeros.
fn normal_from_low_first(s: &Vec<u8>) -> (res: Vec<u8>)
    requires
        all_digits(s@),
    ensures
        is_normal(res@),
        digits_value(res@) == low_first_value(s@),
{
    let mut top = s.len();
    assert(s@.take(top as int) =~= s@);
    while top > 0 && s[top - 1] == 48
        invariant
            top <= s@.len(),
            all_digits(s@),
            low_first_value(s@.take(top as int)) == low_first_value(s@),
        decreases top,
    {
        proof {
            let t = s@.take(top as int);
            assert(t.drop_last() =~= s@.take(top - 1));
            assert(t.last() == 48);
            assert(low_first_value(t) == low_first_value(t.drop_last()) + (t.last() - 48) as nat * power(
                10,
                (t.len() - 1) as nat,
            ));
            let z = (t.last() - 48) as nat;
            let pw = power(10, (t.len() - 1) as nat);
            assert(z == 0);
            assert(z * pw == 0) by (nonlinear_arith)
                requires
                    z == 0,
            ;
            assert(low_first_value(t) == low_first_value(s@.take(top - 1)));
        }
        top = top - 1;
    }
    let mut res: Vec<u8> = Vec::new();
    let mut j = top;
    while j > 0
        invariant
            j <= top <= s@.len(),
            all_digits(s@),
            all_digits(res@),
            top > 0 ==> (res@.len() > 0 ==> res@[0] != 48),
            top > 0 && j < top ==> res@.len() > 0,
            res@.len() == top - j,
            top > 0 && res@.len() > 0 ==> res@[0] == s@[top - 1],
            top > 0 ==> s@[top - 1] != 48,
            digits_value(res@) == low_first_value(s@.subrange(j as int, top as int)),
        decreases j,
    {
        j = j - 1;
        let ghost before = res@;
        assert(is_digit(s@[j as int]));
        res.push(s[j]);
        proof {
            assert(res@.drop_last() =~= before);
            assert(s@.subrange(j as int, top as int) =~= seq![s@[j as int]] + s@.subrange(j + 1, top as int));
            lemma_low_first_front(s@[j as int], s@.subrange(j + 1, top as int));
            assert(all_digits(res@)) by {
                assert forall|k: int| 0 <= k < res@.len() implies is_digit(#[trigger] res@[k]) by {
                    if k < before.len() {
                        assert(res@[k] == before[k]);
                    }
                }
            }
        }
    }
    assert(s@.subrange(0, top as int) =~= s@.take(top as int));
    res
}

/// The digits of `x * k`, without leading zeros.
pub fn mul_small(x: &Vec<u8>, k: u64) -> (res: Vec<u8>)
    requires
        all_digits(x@),
        k < 0x1000_0000_0000_0000,
    ensures
        is_normal(res@),
        digits_value(res@) == digits_value(x@) * k,
{
    let n = x.len();
    let mut out: Vec<u8> = Vec::new();
    let mut carry: u64 = 0;
    let mut i: usize = n;
    assert(x@.subrange(n as int, n as int) =~= Seq::<u8>::empty());
    assert(digits_value(Seq::<u8>::empty()) == 0);
    assert(low_first_value(out@) == 0);
    while i > 0
        invariant
            n == x@.len(),
            all_digits(x@),
            k < 0x1000_0000_0000_0000,
            i <= n,
            out@.len() == n - i,
            all_digits(out@),
            carry <= k,
            low_first_value(out@) + carry * power(10, (n - i) as nat) == digits_value(
                x@.subrange(i as int, n as int),
            ) * k,
        decreases i,
    {
        i = i - 1;
        assert(is_digit(x@[i as int]));
        let xi = (x[i] - 48) as u64;
        assert(xi * k <= 9 * k) by (nonlinear_arith)
            requires
                xi <= 9,
        ;
        let t = xi * k + carry;
        let d = (t % 10) as u8 + 48;
        let ghost before = out@;
        let ghost old_carry = carry;
        out.push(d);
        carry = t / 10;
        proof {
            let m = (n - i - 1) as nat;
            let p = power(10, m);
            assert(out@.drop_last() =~= before);
            assert(low_first_value(out@) == low_first_value(before) + (d - 48) as nat * p);
            assert(x@.subrange(i as int, n as int) =~= seq![x@[i as int]] + x@.subrange(i + 1, n as int));
            lemma_digit_in_front(x@[i as int], x@.subrange(i + 1, n as int));
            assert(power(10, (n - i) as nat) == 10 * p);
            let lv = low_first_value(before);
            let rv = digits_value(x@.subrange(i + 1, n as int));
            assert(lv + old_carry * p == rv * k);
            assert((d - 48) + 10 * carry == t);
            assert(lv + (d - 48) * p + carry * (10 * p) == (xi * p + rv) * k) by (nonlinear_arith)
                requires
                    lv + old_carry * p == rv * k,
                    (d - 48) + 10 * carry == xi * k + old_carry,
            ;
            assert(all_digits(out@)) by {
                assert forall|j: int| 0 <= j < out@.len() implies is_digit(#[trigger] out@[j]) by {
                    if j < before.len() {
                        assert(out@[j] == before[j]);
                    }
                }
            }
        }
    }
    assert(x@.subrange(0, n as int) =~= x@);
    let ghost total = digits_value(x@) * k;
    while carry > 0
        invariant
            all_digits(out@),
            low_first_value(out@) + carry * power(10, out@.len()) == total,
        decreases carry,
    {
        let d = (carry % 10) as u8 + 48;
        let ghost before = out@;
        let ghost old_carry = carry;
        out.push(d);
        carry = carry / 10;
        proof {
            let p = power(10, before.len());
            assert(out@.drop_last() =~= before);
            assert(low_first_value(out@) == low_first_value(before) + (d - 48) as nat * p);
            assert(power(10, out@.len()) == 10 * p);
            assert((d - 48) + 10 * carry == old_carry);
            assert((d - 48) * p + carry * (10 * p) == old_carry * p) by (nonlinear_arith)
                requires
                    (d - 48) + 10 * carry == old_carry,
            ;
            assert(all_digits(out@)) by {
                assert forall|j: int| 0 <= j < out@.len() implies is_digit(#[trigger] out@[j]) by {
                    if j < before.len() {
                        assert(out@[j] == before[j]);
                    }
                }
            }
        }
    }
    normal_from_low_first(&out)
}


// ---------------------------------------------------------------------------
// The nearest double
// ---------------------------------------------------------------------------

/// `2^e <= a / b < 2^(e + 1)`: `a / b` lies in the binade of exponent `e`.
pub open spec fn in_binade(a: nat, b: nat, e: int) -> bool {
    if e >= 0 {
        power(2, e as nat) * b <= a && a < power(2, (e + 1) as nat) * b
    } else {
        b <= a * power(2, (-e) as nat) && a * power(2, (-e) as nat) < 2 * b
    }
}

/// The exponent of the binade of `a / b`, for positive `a` and `b`.
pub open spec fn binade(a: nat, b: nat) -> int {
    choose|e: int| in_binade(a, b, e)
}

/// The exponent of the last significand bit of a double in the binade of
/// exponent `e`: 53 significant bits, and no bit below `2^-1074`.
pub open spec fn step_exponent(e: int) -> int {
    if e - 52 >= -1074 {
        e - 52
    } else {
        -1074
    }
}

/// The numerator of `(a / b) / 2^q`.
pub open spec fn scaled_num(a: nat, q: int) -> nat {
    if q >= 0 {
        a
    } else {
        a * power(2, (-q) as nat)
    }
}

/// The denominator of `(a / b) / 2^q`.
pub open spec fn scaled_den(b: nat, q: int) -> nat {
    if q >= 0 {
        b * power(2, q as nat)
    } else {
        b
    }
}

/// `x / y` rounded to the nearest whole number, a tie to the even one.
pub open spec fn round_half_even(x: nat, y: nat) -> nat {
    let f = x / y;
    let r = x % y;
    if 2 * r > y || (2 * r == y && f % 2 == 1) {
        f + 1
    } else {
        f
    }
}

/// The whole number that the double nearest to `a / b` (`b` positive)
/// rounds up to, saturated at `u64::MAX`; `None` where the nearest double
/// is infinite. The nearest double is `m * 2^q`, where `q` is the step
/// exponent of the binade of `a / b` and `m` is `(a / b) / 2^q` rounded to
/// the nearest whole number, a tie to the even one; it is infinite once it
/// reaches `2^1024`.
pub open spec fn double_ceiling(a: nat, b: nat) -> Option<u64> {
    if a == 0 {
        Some(0)
    } else {
        let q = step_exponent(binade(a, b));
        double_ceiling_of_parts(round_half_even(scaled_num(a, q), scaled_den(b, q)), q)
    }
}

/// The whole number that the double `m * 2^q` rounds up to, saturated at
/// `u64::MAX`; `None` where `m * 2^q` reaches `2^1024`.
pub open spec fn double_ceiling_of_parts(m: nat, q: int) -> Option<u64> {
    if q >= 0 && m * power(2, q as nat) >= power(2, 1024) {
        None
    } else {
        let c: int = if q >= 0 {
            (m * power(2, q as nat)) as int
        } else {
            (m + power(2, (-q) as nat) - 1) / (power(2, (-q) as nat) as int)
        };
        Some(if c > u64::MAX { u64::MAX } else { c as u64 })
    }
}

/// A fraction lies in one binade only.
proof fn lemma_binade_unique(a: nat, b: nat, e1: int, e2: int)
    requires
        b > 0,
        in_binade(a, b, e1),
        in_binade(a, b, e2),
    ensures
        e2 <= e1,
{
    if e1 >= e2 {
    } else if e1 >= 0 {
        lemma_power_grows(2, (e1 + 1) as nat, e2 as nat);
        let p = power(2, (e1 + 1) as nat);
        let r = power(2, e2 as nat);
        assert(p * b <= r * b) by (nonlinear_arith)
            requires
                p <= r,
        ;
    } else if e2 < 0 {
        let k1 = (-e1) as nat;
        let k2 = (-e2) as nat;
        lemma_power_adds(2, k2, (k1 - k2) as nat);
        lemma_power_pos(2, (k1 - k2 - 1) as nat);
        assert(power(2, (k1 - k2) as nat) == 2 * power(2, (k1 - k2 - 1) as nat));
        let p1 = power(2, k1);
        let p2 = power(2, k2);
        let r = power(2, (k1 - k2) as nat);
        assert(a * p1 >= 2 * (a * p2)) by (nonlinear_arith)
            requires
                p1 == p2 * r,
                r >= 2,
        ;
    } else {
        let k1 = (-e1) as nat;
        lemma_power_pos(2, (k1 - 1) as nat);
        assert(power(2, k1) == 2 * power(2, (k1 - 1) as nat));
        lemma_power_pos(2, e2 as nat);
        let p1 = power(2, k1);
        let r = power(2, e2 as nat);
        assert(a * p1 >= 2 * a) by (nonlinear_arith)
            requires
                p1 >= 2,
        ;
        assert(r * b >= b) by (nonlinear_arith)
            requires
                r >= 1,
        ;
    }
}

/// The binade of a fraction is the one it lies in.
proof fn lemma_binade_is(a: nat, b: nat, e: int)
    requires
        b > 0,
        in_binade(a, b, e),
    ensures
        binade(a, b) == e,
{
    let c = binade(a, b);
    assert(in_binade(a, b, c));
    if c < e {
        lemma_binade_unique(a, b, c, e);
    } else if e < c {
        lemma_binade_unique(a, b, e, c);
    }
}

/// `10^n <= 2^(4 n)`.
proof fn lemma_power10_below_power2(n: nat)
    ensures
        power(10, n) <= power(2, 4 * n),
    decreases n,
{
    if n > 0 {
        lemma_power10_below_power2((n - 1) as nat);
        lemma_power_adds(2, 4 * (n - 1) as nat, 4);
        assert(4 * (n - 1) as nat + 4 == 4 * n);
        assert(power(2, 4) == 16) by {
            reveal_with_fuel(power, 5);
        }
        let a = power(10, (n - 1) as nat);
        let b = power(2, 4 * (n - 1) as nat);
        assert(10 * a <= b * 16) by (nonlinear_arith)
            requires
                a <= b,
        ;
    }
}

/// A copy of normal digits.
fn copy_digits(x: &Vec<u8>) -> (res: Vec<u8>)
    requires
        is_normal(x@),
    ensures
        is_normal(res@),
        digits_value(res@) == digits_value(x@),
{
    mul_small(x, 1)
}

/// The exponent of the binade of `a / b`.
fn find_binade(a: &Vec<u8>, b: &Vec<u8>) -> (e: i128)
    requires
        is_normal(a@),
        is_normal(b@),
        digits_value(a@) > 0,
        digits_value(b@) > 0,
    ensures
        in_binade(digits_value(a@), digits_value(b@), e as int),
        -4 * b@.len() - 1 <= e < 4 * a@.len(),
{
    let ghost av = digits_value(a@);
    let ghost bv = digits_value(b@);
    let na = a.len();
    let nb = b.len();
    proof {
        lemma_digits_bound(a@);
        lemma_digits_bound(b@);
        lemma_power10_below_power2(a@.len());
        lemma_power10_below_power2(b@.len());
    }
    if compare_digits(a, b) >= 0 {
        let mut t = copy_digits(b);
        let mut e: i128 = 0;
        assert(a@.len() > 0);
        let mut t2 = mul_small(&t, 2);
        assert(power(2, 0) == 1 && power(2, 1) == 2) by {
            reveal_with_fuel(power, 2);
        }
        while compare_digits(a, &t2) >= 0
            invariant
                is_normal(a@),
                is_normal(t@),
                is_normal(t2@),
                e < 4 * a@.len(),
                na == a@.len(),
                av == digits_value(a@),
                bv == digits_value(b@),
                bv > 0,
                0 <= e,
                av < power(2, 4 * a@.len()),
                digits_value(t@) == power(2, e as nat) * bv,
                digits_value(t2@) == power(2, (e + 1) as nat) * bv,
                digits_value(t@) <= av,
            decreases av - digits_value(t@),
        {
            proof {
                let p = power(2, (e + 1) as nat);
                assert(p * bv >= p) by (nonlinear_arith)
                    requires
                        bv >= 1,
                ;
                if e + 1 >= 4 * a@.len() {
                    lemma_power_grows(2, 4 * a@.len(), (e + 1) as nat);
                }
                lemma_power_pos(2, e as nat);
                assert(power(2, (e + 1) as nat) == 2 * power(2, e as nat));
                let q = power(2, e as nat);
                assert(2 * q * bv > q * bv) by (nonlinear_arith)
                    requires
                        q >= 1,
                        bv >= 1,
                ;
            }
            t = t2;
            e = e + 1;
            t2 = mul_small(&t, 2);
            proof {
                assert(power(2, (e + 1) as nat) == 2 * power(2, e as nat));
                let q = power(2, e as nat);
                assert(q * bv * 2 == 2 * q * bv) by (nonlinear_arith);
            }
        }
        proof {
            if e + 1 >= 4 * a@.len() {
                let p = power(2, (e + 1) as nat);
                lemma_power_grows(2, 4 * a@.len(), (e + 1) as nat);
                assert(p * bv >= p) by (nonlinear_arith)
                    requires
                        bv >= 1,
                ;
            }
        }
        e
    } else {
        let mut s = copy_digits(a);
        let mut e: i128 = 0;
        assert(power(2, 0) == 1) by {
            reveal_with_fuel(power, 1);
        }
        assert(av * power(2, 0) == av);
        assert(a@.len() > 0);
        while compare_digits(&s, b) < 0
            invariant
                is_normal(s@),
                is_normal(b@),
                nb == b@.len(),
                av == digits_value(a@),
                bv == digits_value(b@),
                av > 0,
                av < bv,
                e <= 0,
                bv < power(2, 4 * b@.len()),
                digits_value(s@) == av * power(2, (-e) as nat),
                e < 0 ==> digits_value(s@) < 2 * bv,
                e < 0 ==> power(2, (-e - 1) as nat) < bv,
            decreases if digits_value(s@) < bv {
                bv - digits_value(s@)
            } else {
                0
            },
        {
            proof {
                let p = power(2, (-e) as nat);
                lemma_power_pos(2, (-e) as nat);
                assert(av * p >= p) by (nonlinear_arith)
                    requires
                        av >= 1,
                ;
                if -e >= 4 * b@.len() {
                    lemma_power_grows(2, 4 * b@.len(), (-e) as nat);
                }
                assert(av * p * 2 > av * p) by (nonlinear_arith)
                    requires
                        av >= 1,
                        p >= 1,
                ;
            }
            let ghost sv = digits_value(s@);
            s = mul_small(&s, 2);
            e = e - 1;
            proof {
                let k = (-e) as nat;
                assert(power(2, k) == 2 * power(2, (k - 1) as nat));
                let p = power(2, (k - 1) as nat);
                assert(av * p * 2 == av * (2 * p)) by (nonlinear_arith);
                assert(p <= av * p) by (nonlinear_arith)
                    requires
                        av >= 1,
                ;
            }
        }
        proof {
            if -e - 1 >= 4 * b@.len() {
                lemma_power_grows(2, 4 * b@.len(), (-e - 1) as nat);
            }
        }
        e
    }
}


/// `2^k` for `k` below 64.
fn power2_of(k: u32) -> (res: u64)
    requires
        k < 64,
    ensures
        res == power(2, k as nat),
{
    let mut r: u64 = 1;
    let mut j: u32 = 0;
    assert(power(2, 0) == 1);
    assert(power(2, 63) == 0x8000_0000_0000_0000) by {
        reveal_with_fuel(power, 64);
    }
    while j < k
        invariant
            j <= k < 64,
            r == power(2, j as nat),
            power(2, 63) == 0x8000_0000_0000_0000,
        decreases k - j,
    {
        proof {
            lemma_power_grows(2, j as nat, 62);
            lemma_power_adds(2, 62, 1);
            assert(power(2, 1) == 2) by {
                reveal_with_fuel(power, 2);
            }
        }
        r = r * 2;
        j = j + 1;
    }
    r
}

/// The fraction `a / b` divided by `2^q`.
fn scale_pair(a: &Vec<u8>, b: &Vec<u8>, q: i128) -> (res: (Vec<u8>, Vec<u8>))
    requires
        is_normal(a@),
        is_normal(b@),
        q >= -1074,
    ensures
        is_normal(res.0@),
        is_normal(res.1@),
        digits_value(res.0@) == scaled_num(digits_value(a@), q as int),
        digits_value(res.1@) == scaled_den(digits_value(b@), q as int),
{
    let ghost av = digits_value(a@);
    let ghost bv = digits_value(b@);
    assert(power(2, 0) == 1);
    if q >= 0 {
        let sn = copy_digits(a);
        let mut sd = copy_digits(b);
        let mut j: i128 = 0;
        assert(bv * power(2, 0) == bv);
        while j < q
            invariant
                0 <= j <= q,
                is_normal(sd@),
                digits_value(sd@) == bv * power(2, j as nat),
            decreases q - j,
        {
            sd = mul_small(&sd, 2);
            j = j + 1;
            proof {
                let p = power(2, (j - 1) as nat);
                assert(power(2, j as nat) == 2 * p);
                assert(bv * p * 2 == bv * (2 * p)) by (nonlinear_arith);
            }
        }
        (sn, sd)
    } else {
        let mut sn = copy_digits(a);
        let sd = copy_digits(b);
        let mut j: i128 = 0;
        assert(av * power(2, 0) == av);
        while j < -q
            invariant
                -1074 <= q < 0,
                0 <= j <= -q,
                is_normal(sn@),
                digits_value(sn@) == av * power(2, j as nat),
            decreases -q - j,
        {
            sn = mul_small(&sn, 2);
            j = j + 1;
            proof {
                let p = power(2, (j - 1) as nat);
                assert(power(2, j as nat) == 2 * p);
                assert(av * p * 2 == av * (2 * p)) by (nonlinear_arith);
            }
        }
        (sn, sd)
    }
}

/// The whole part `m` of `n / d`, for `n / d` below `2^54`.
fn small_quotient(n: &Vec<u8>, d: &Vec<u8>) -> (m: u64)
    requires
        is_normal(n@),
        is_normal(d@),
        digits_value(d@) > 0,
        digits_value(n@) < power(2, 54) * digits_value(d@),
    ensures
        m * digits_value(d@) <= digits_value(n@) < (m + 1) * digits_value(d@),
        m < power(2, 54),
{
    let ghost nv = digits_value(n@);
    let ghost dv = digits_value(d@);
    let mut m: u64 = 0;
    let mut p: u64 = 0x40_0000_0000_0000;
    let mut i: u32 = 54;
    assert(power(2, 54) == 0x40_0000_0000_0000) by {
        reveal_with_fuel(power, 55);
    }
    assert(0 * dv == 0);
    while i > 0
        invariant
            is_normal(n@),
            is_normal(d@),
            nv == digits_value(n@),
            dv == digits_value(d@),
            i <= 54,
            p == power(2, i as nat),
            m + p <= 0x40_0000_0000_0000,
            m * dv <= nv,
            nv < (m + p) * dv,
        decreases i,
    {
        i = i - 1;
        proof {
            assert(power(2, (i + 1) as nat) == 2 * power(2, i as nat));
        }
        p = p / 2;
        let cand = m + p;
        let prod = mul_small(d, cand);
        if compare_digits(&prod, n) <= 0 {
            proof {
                assert((cand + p) * dv == (m + 2 * p) * dv);
            }
            m = cand;
        } else {
            proof {
                assert(nv < cand * dv);
            }
        }
    }
    assert(power(2, 0) == 1);
    m
}

/// `n / d` rounded to the nearest whole number, a tie to the even one, for
/// `n / d` below `2^53`.
#[verifier::rlimit(60)]
fn round_quotient(n: &Vec<u8>, d: &Vec<u8>) -> (res: u64)
    requires
        is_normal(n@),
        is_normal(d@),
        digits_value(d@) > 0,
        digits_value(n@) < power(2, 53) * digits_value(d@),
    ensures
        res == round_half_even(digits_value(n@), digits_value(d@)),
        res <= power(2, 53),
        (digits_value(n@) / digits_value(d@)) as int <= res,
{
    let ghost nv = digits_value(n@);
    let ghost dv = digits_value(d@);
    assert(power(2, 54) == 2 * power(2, 53));
    assert(power(2, 53) * dv <= power(2, 54) * dv) by (nonlinear_arith)
        requires
            power(2, 53) <= power(2, 54),
    ;
    let m = small_quotient(n, d);
    proof {
        assert((m + 1) * dv == m * dv + dv) by (nonlinear_arith);
        let r = nv - m * dv;
        assert(nv == m * dv + r);
        vstd::arithmetic::div_mod::lemma_fundamental_div_mod_converse_div(nv as int, dv as int, m as int, r);
        vstd::arithmetic::div_mod::lemma_fundamental_div_mod_converse_mod(nv as int, dv as int, m as int, r);
        if m >= power(2, 53) {
            assert(m * dv >= power(2, 53) * dv) by (nonlinear_arith)
                requires
                    m >= power(2, 53),
            ;
        }
    }
    assert(power(2, 53) == 0x20_0000_0000_0000) by {
        reveal_with_fuel(power, 54);
    }
    let twice = mul_small(n, 2);
    let other = mul_small(d, 2 * m + 1);
    let c = compare_digits(&twice, &other);
    let up = c > 0 || (c == 0 && m % 2 == 1);
    proof {
        assert(dv * (2 * m + 1) == 2 * (m * dv) + dv) by (nonlinear_arith);
        assert(nv * 2 == 2 * nv);
        let r = nv % dv;
        assert(r == nv - m * dv);
        assert(nv / dv == m);
        assert((2 * r > dv) == (c > 0));
        assert((2 * r == dv) == (c == 0));
    }
    if up {
        m + 1
    } else {
        m
    }
}

/// `double_ceiling_of_parts`, computed.
#[verifier::spinoff_prover]
#[verifier::rlimit(80)]
fn ceiling_of_parts(m: u64, q: i128) -> (res: Option<u64>)
    requires
        m <= power(2, 53),
        q >= -1074,
        q >= 0 ==> m >= power(2, 52),
    ensures
        res == double_ceiling_of_parts(m as nat, q as int),
{
    assert(power(2, 53) == 0x20_0000_0000_0000) by {
        reveal_with_fuel(power, 54);
    }
    assert(power(2, 52) == 0x10_0000_0000_0000) by {
        reveal_with_fuel(power, 53);
    }
    if q >= 0 {
        let ghost pq = power(2, q as nat);
        if q > 971 {
            proof {
                lemma_power_grows(2, 972, q as nat);
                lemma_power_adds(2, 52, 972);
                let a = power(2, 52);
                let b = power(2, 972);
                assert(m * pq >= a * b) by (nonlinear_arith)
                    requires
                        m >= a,
                        pq >= b,
                ;
            }
            return None;
        }
        proof {
            lemma_power_adds(2, 53, 971);
        }
        if q == 971 && m == 0x20_0000_0000_0000 {
            return None;
        }
        proof {
            if q == 971 {
                let b = power(2, 971);
                lemma_power_pos(2, 971);
                assert(m * b < power(2, 53) * b) by (nonlinear_arith)
                    requires
                        m < power(2, 53),
                        b >= 1,
                ;
            } else {
                lemma_power_grows(2, q as nat, 970);
                lemma_power_adds(2, 53, 970);
                lemma_power2_strict(1023, 1024);
                let b = power(2, 970);
                assert(m * pq <= power(2, 53) * b) by (nonlinear_arith)
                    requires
                        m <= power(2, 53),
                        pq <= b,
                ;
                assert(53 + 970 == 1023);
            }
        }
        if q >= 12 {
            proof {
                lemma_power_grows(2, 12, q as nat);
                lemma_power_adds(2, 52, 12);
                assert(power(2, 64) == 0x1_0000_0000_0000_0000) by {
                    reveal_with_fuel(power, 65);
                }
                let a = power(2, 52);
                let b = power(2, 12);
                assert(m * pq >= a * b) by (nonlinear_arith)
                    requires
                        m >= a,
                        pq >= b,
                ;
            }
            return Some(u64::MAX);
        }
        let p = power2_of(q as u32);
        proof {
            lemma_power_grows(2, q as nat, 11);
            assert(power(2, 11) == 0x800) by {
                reveal_with_fuel(power, 12);
            }
        }
        assert(m as u128 * p as u128 <= 0x20_0000_0000_0000u128 * 0x800u128) by (nonlinear_arith)
            requires
                m <= 0x20_0000_0000_0000,
                p <= 0x800,
        ;
        let c: u128 = m as u128 * p as u128;
        Some(if c > u64::MAX as u128 { u64::MAX } else { c as u64 })
    } else {
        let k = -q;
        let ghost pk = power(2, k as nat);
        proof {
            lemma_power_pos(2, k as nat);
        }
        if k >= 54 {
            proof {
                lemma_power2_strict(53, k as nat);
                if m == 0 {
                    vstd::arithmetic::div_mod::lemma_fundamental_div_mod_converse_div(
                        pk - 1,
                        pk as int,
                        0,
                        pk - 1,
                    );
                } else {
                    vstd::arithmetic::div_mod::lemma_fundamental_div_mod_converse_div(
                        m + pk - 1,
                        pk as int,
                        1,
                        m - 1,
                    );
                }
            }
            return Some(if m == 0 { 0 } else { 1 });
        }
        let p = power2_of(k as u32);
        proof {
            lemma_power_grows(2, k as nat, 53);
        }
        let c = (m + p - 1) / p;
        Some(c)
    }
}


/// Divided by `2^q` for its step exponent `q`, a fraction of the binade `e`
/// lies below `2^53`, and at or above `2^52` where `q` is not negative.
proof fn lemma_scaled_bounds(a: nat, b: nat, e: int)
    requires
        b > 0,
        in_binade(a, b, e),
    ensures
        scaled_num(a, step_exponent(e)) < power(2, 53) * scaled_den(b, step_exponent(e)),
        step_exponent(e) >= 0 ==> scaled_num(a, step_exponent(e)) >= power(2, 52) * scaled_den(
            b,
            step_exponent(e),
        ),
{
    let q = step_exponent(e);
    if q >= 0 {
        lemma_power_adds(2, 52, q as nat);
        lemma_power_adds(2, 53, q as nat);
        assert(e == q + 52);
        assert((e + 1) as nat == 53 + q as nat);
        let p = power(2, q as nat);
        assert(power(2, 53) * (b * p) == (power(2, 53) * p) * b) by (nonlinear_arith);
        assert(power(2, 52) * (b * p) == (power(2, 52) * p) * b) by (nonlinear_arith);
    } else if e >= 0 {
        let k = (-q) as nat;
        assert(k + (e + 1) as nat == 53);
        lemma_power_adds(2, (e + 1) as nat, k);
        let pk = power(2, k);
        let pe = power(2, (e + 1) as nat);
        lemma_power_pos(2, k);
        assert(a * pk < pe * pk * b) by (nonlinear_arith)
            requires
                a < pe * b,
                pk >= 1,
        {
        }
        lemma_power_pos(2, k);
        assert(pe * pk * b == (pe * pk) * b);
    } else {
        let k = (-q) as nat;
        let j = (-e) as nat;
        assert(k <= 52 + j);
        lemma_power_grows(2, k, 52 + j);
        lemma_power_adds(2, j, 52);
        lemma_power_adds(2, 1, 52);
        assert(power(2, 1) == 2) by {
            reveal_with_fuel(power, 2);
        }
        let pk = power(2, k);
        let pj = power(2, j);
        let p52 = power(2, 52);
        lemma_power_pos(2, 52);
        assert(a * pk <= a * (pj * p52)) by (nonlinear_arith)
            requires
                pk <= pj * p52,
        ;
        assert(a * (pj * p52) < 2 * b * p52) by (nonlinear_arith)
            requires
                a * pj < 2 * b,
                p52 >= 1,
        {
        }
        lemma_power_pos(2, 52);
        assert(2 * b * p52 == (2 * p52) * b) by (nonlinear_arith);
    }
}

/// `double_ceiling`, computed for a positive fraction of normal digit
/// strings.
fn fraction_ceiling(a: &Vec<u8>, b: &Vec<u8>) -> (res: Option<u64>)
    requires
        is_normal(a@),
        is_normal(b@),
        digits_value(a@) > 0,
        digits_value(b@) > 0,
    ensures
        res == double_ceiling(digits_value(a@), digits_value(b@)),
{
    let ghost av = digits_value(a@);
    let ghost bv = digits_value(b@);
    let nb = b.len();
    let e = find_binade(a, b);
    proof {
        lemma_binade_is(av, bv, e as int);
        lemma_scaled_bounds(av, bv, e as int);
    }
    let q: i128 = if e - 52 >= -1074 { e - 52 } else { -1074 };
    assert(q == step_exponent(e as int));
    let (sn, sd) = scale_pair(a, b, q);
    proof {
        if q >= 0 {
            lemma_power_pos(2, q as nat);
            assert(bv * power(2, q as nat) > 0) by (nonlinear_arith)
                requires
                    bv > 0,
                    power(2, q as nat) >= 1,
            ;
        }
    }
    let m = round_quotient(&sn, &sd);
    proof {
        if q >= 0 {
            let nv = digits_value(sn@);
            let dv = digits_value(sd@);
            let f = nv / dv;
            vstd::arithmetic::div_mod::lemma_fundamental_div_mod(nv as int, dv as int);
            vstd::arithmetic::div_mod::lemma_mod_pos_bound(nv as int, dv as int);
            assert(dv * f == f * dv) by (nonlinear_arith);
            assert(nv >= power(2, 52) * dv);
            if f < power(2, 52) {
                assert((f + 1) * dv <= power(2, 52) * dv) by (nonlinear_arith)
                    requires
                        f + 1 <= power(2, 52),
                ;
                assert(f * dv + dv == (f + 1) * dv) by (nonlinear_arith);
            }
        }
    }
    ceiling_of_parts(m, q)
}


/// Rounding to the nearest whole number never goes below the whole part.
proof fn lemma_round_at_least_floor(x: nat, y: nat)
    requires
        y > 0,
    ensures
        round_half_even(x, y) >= x / y,
{
}

/// A fraction of at least `2^1024` has an infinite nearest double.
proof fn lemma_overflow(a: nat, b: nat)
    requires
        b > 0,
        a >= power(2, 1024) * b,
    ensures
        double_ceiling(a, b) is None,
{
    lemma_power_pos(2, 1024);
    assert(a > 0) by (nonlinear_arith)
        requires
            b > 0,
            power(2, 1024) >= 1,
            a >= power(2, 1024) * b,
    ;
    let w0 = binade_witness(a, b);
    lemma_binade_is(a, b, w0);
    let e = binade(a, b);
    assert(in_binade(a, b, e));
    if e < 1024 {
        if e >= 0 {
            lemma_power_grows(2, (e + 1) as nat, 1024);
            let p = power(2, (e + 1) as nat);
            assert(p * b <= power(2, 1024) * b) by (nonlinear_arith)
                requires
                    p <= power(2, 1024),
            ;
        } else {
            let k = (-e) as nat;
            lemma_power_pos(2, k);
            lemma_power2_strict(1, 1024);
            assert(power(2, 1) == 2) by {
                reveal_with_fuel(power, 2);
            }
            assert(a * power(2, k) >= a) by (nonlinear_arith)
                requires
                    power(2, k) >= 1,
            ;
            assert(2 * b <= power(2, 1024) * b) by (nonlinear_arith)
                requires
                    2 <= power(2, 1024),
            ;
        }
    }
    let q = step_exponent(e);
    lemma_scaled_bounds(a, b, e);
    let sn = scaled_num(a, q);
    let sd = scaled_den(b, q);
    lemma_power_pos(2, q as nat);
    assert(sd > 0) by (nonlinear_arith)
        requires
            sd == b * power(2, q as nat),
            b > 0,
            power(2, q as nat) >= 1,
    ;
    let f = sn / sd;
    vstd::arithmetic::div_mod::lemma_fundamental_div_mod(sn as int, sd as int);
    vstd::arithmetic::div_mod::lemma_mod_pos_bound(sn as int, sd as int);
    if f < power(2, 52) {
        assert((f + 1) * sd <= power(2, 52) * sd) by (nonlinear_arith)
            requires
                f + 1 <= power(2, 52),
        ;
        assert(sd * f + sd == (f + 1) * sd) by (nonlinear_arith);
    }
    lemma_round_at_least_floor(sn, sd);
    let m = round_half_even(sn, sd);
    lemma_power_grows(2, 972, q as nat);
    lemma_power_adds(2, 52, 972);
    let pq = power(2, q as nat);
    assert(m * pq >= power(2, 52) * power(2, 972)) by (nonlinear_arith)
        requires
            m >= power(2, 52),
            pq >= power(2, 972),
    ;
}

/// A binade at or above `e` holds `a / b`, where `2^e <= a / b`.
proof fn binade_at_or_above(a: nat, b: nat, e: nat) -> (r: int)
    requires
        b > 0,
        power(2, e) * b <= a,
    ensures
        in_binade(a, b, r),
    decreases a - power(2, e) * b,
{
    if a < power(2, e + 1) * b {
        e as int
    } else {
        lemma_power_pos(2, e);
        assert(power(2, e + 1) == 2 * power(2, e));
        assert(power(2, e + 1) * b > power(2, e) * b) by (nonlinear_arith)
            requires
                power(2, e + 1) == 2 * power(2, e),
                power(2, e) >= 1,
                b > 0,
        ;
        binade_at_or_above(a, b, e + 1)
    }
}

/// A binade below `-k` holds `a / b`, where `a / b < 2^-k`.
proof fn binade_below(a: nat, b: nat, k: nat) -> (r: int)
    requires
        a > 0,
        a * power(2, k) < b,
    ensures
        in_binade(a, b, r),
    decreases b - a * power(2, k),
{
    assert(power(2, k + 1) == 2 * power(2, k));
    assert(a * power(2, k + 1) == 2 * (a * power(2, k))) by (nonlinear_arith)
        requires
            power(2, k + 1) == 2 * power(2, k),
    ;
    if a * power(2, k + 1) >= b {
        -(k + 1)
    } else {
        lemma_power_pos(2, k);
        assert(a * power(2, k) >= 1) by (nonlinear_arith)
            requires
                a >= 1,
                power(2, k) >= 1,
        ;
        binade_below(a, b, k + 1)
    }
}

/// Some binade holds every positive fraction.
proof fn binade_witness(a: nat, b: nat) -> (e: int)
    requires
        a > 0,
        b > 0,
    ensures
        in_binade(a, b, e),
{
    assert(power(2, 0) == 1);
    assert(a * power(2, 0) == a);
    assert(power(2, 0) * b == b);
    if b <= a {
        binade_at_or_above(a, b, 0)
    } else {
        binade_below(a, b, 0)
    }
}


/// A positive fraction below `2^-1075` has the nearest double zero.
proof fn lemma_underflow(a: nat, b: nat)
    requires
        a > 0,
        a * power(2, 1075) < b,
    ensures
        double_ceiling(a, b) == Some(0u64),
{
    let w0 = binade_witness(a, b);
    lemma_binade_is(a, b, w0);
    let e = binade(a, b);
    if e >= -1075 {
        if e >= 0 {
            lemma_power_pos(2, e as nat);
            lemma_power_pos(2, 1075);
            assert(power(2, e as nat) * b >= b) by (nonlinear_arith)
                requires
                    power(2, e as nat) >= 1,
            ;
            assert(a * power(2, 1075) >= a) by (nonlinear_arith)
                requires
                    power(2, 1075) >= 1,
            ;
        } else {
            let k = (-e) as nat;
            lemma_power_grows(2, k, 1075);
            assert(a * power(2, k) <= a * power(2, 1075)) by (nonlinear_arith)
                requires
                    power(2, k) <= power(2, 1075),
            ;
        }
    }
    assert(e < -1075);
    let q = step_exponent(e);
    assert(q == -1074);
    let sn = a * power(2, 1074);
    assert(power(2, 1075) == 2 * power(2, 1074));
    assert(a * power(2, 1075) == 2 * sn) by (nonlinear_arith)
        requires
            power(2, 1075) == 2 * power(2, 1074),
            sn == a * power(2, 1074),
    ;
    vstd::arithmetic::div_mod::lemma_fundamental_div_mod_converse_div(sn as int, b as int, 0, sn as int);
    vstd::arithmetic::div_mod::lemma_fundamental_div_mod_converse_mod(sn as int, b as int, 0, sn as int);
    assert(round_half_even(sn, b) == 0);
    let p = power(2, 1074);
    lemma_power_pos(2, 1074);
    vstd::arithmetic::div_mod::lemma_fundamental_div_mod_converse_div(p - 1, p as int, 0, p - 1);
}

/// The numerator of the number with digits `d` and the decimal point after
/// the first `point` of them.
pub open spec fn fraction_num(d: Seq<u8>, point: int) -> nat {
    if point >= d.len() {
        digits_value(d) * power(10, (point - d.len()) as nat)
    } else {
        digits_value(d)
    }
}

/// The denominator of that number.
pub open spec fn fraction_den(d: Seq<u8>, point: int) -> nat {
    if point >= d.len() {
        1
    } else {
        power(10, (d.len() - point) as nat)
    }
}

/// The number of `0` digits that `d` starts with, from `i` on.
pub open spec fn zeros_from(d: Seq<u8>, i: int) -> int
    decreases d.len() - i,
{
    if 0 <= i < d.len() && d[i] == 48 {
        zeros_from(d, i + 1)
    } else {
        i
    }
}

pub proof fn lemma_zeros_from_bounds(d: Seq<u8>, i: int)
    requires
        0 <= i <= d.len(),
    ensures
        i <= zeros_from(d, i) <= d.len(),
        forall|j: int| i <= j < zeros_from(d, i) ==> #[trigger] d[j] == 48,
        zeros_from(d, i) < d.len() ==> d[zeros_from(d, i)] != 48,
    decreases d.len() - i,
{
    if i < d.len() && d[i] == 48 {
        lemma_zeros_from_bounds(d, i + 1);
    }
}

/// Digits after `z` leading zeros: their number, and bounds on it.
proof fn lemma_significant_digits(d: Seq<u8>)
    requires
        all_digits(d),
    ensures
        ({
            let z = zeros_from(d, 0);
            &&& digits_value(d) == digits_value(d.skip(z))
            &&& digits_value(d) < power(10, (d.len() - z) as nat)
            &&& z < d.len() ==> digits_value(d) >= power(10, (d.len() - z - 1) as nat)
            &&& z < d.len() ==> is_normal(d.skip(z))
        }),
{
    lemma_zeros_from_bounds(d, 0);
    let z = zeros_from(d, 0);
    lemma_strip_zeros(d, z);
    let t = d.skip(z);
    assert(all_digits(t)) by {
        assert forall|k: int| 0 <= k < t.len() implies is_digit(#[trigger] t[k]) by {
            assert(t[k] == d[z + k]);
        }
    }
    lemma_digits_bound(t);
    if z < d.len() {
        assert(t[0] == d[z]);
        lemma_digits_leading(t);
    }
}

/// A number whose first significant digit stands 310 or more places before
/// its point has an infinite nearest double.
proof fn lemma_huge(d: Seq<u8>, point: int)
    requires
        all_digits(d),
        zeros_from(d, 0) < d.len(),
        point - zeros_from(d, 0) > 309,
    ensures
        double_ceiling(fraction_num(d, point), fraction_den(d, point)) is None,
{
    lemma_significant_digits(d);
    lemma_doubles_below_1e309();
    let z = zeros_from(d, 0);
    let n = d.len();
    let v = digits_value(d);
    let lead = power(10, (n - z - 1) as nat);
    let big = power(10, (point - z - 1) as nat);
    lemma_power_grows(10, 309, (point - z - 1) as nat);
    if point >= n {
        lemma_power_adds(10, (n - z - 1) as nat, (point - n) as nat);
        assert((n - z - 1) as nat + (point - n) as nat == (point - z - 1) as nat);
        let p = power(10, (point - n) as nat);
        assert(v * p >= lead * p) by (nonlinear_arith)
            requires
                v >= lead,
        ;
        assert(power(2, 1024) * 1 == power(2, 1024));
    } else {
        lemma_power_adds(10, (point - z - 1) as nat, (n - point) as nat);
        assert((point - z - 1) as nat + (n - point) as nat == (n - z - 1) as nat);
        let den = power(10, (n - point) as nat);
        assert(big * den >= power(2, 1024) * den) by (nonlinear_arith)
            requires
                big >= power(2, 1024),
        ;
    }
    lemma_power_pos(10, (n - point) as nat);
    lemma_overflow(fraction_num(d, point), fraction_den(d, point));
}

/// A number whose first significant digit stands 324 or more places after
/// its point has the nearest double zero.
proof fn lemma_tiny(d: Seq<u8>, point: int)
    requires
        all_digits(d),
        point - zeros_from(d, 0) < -323,
    ensures
        double_ceiling(fraction_num(d, point), fraction_den(d, point)) == Some(0u64),
{
    lemma_significant_digits(d);
    let z = zeros_from(d, 0);
    let n = d.len();
    let v = digits_value(d);
    lemma_zeros_from_bounds(d, 0);
    assert(point < n);
    if z < n {
        lemma_half_smallest_double_above_1e_324();
        let top = power(10, (n - z) as nat);
        lemma_power_adds(10, (n - z) as nat, 324);
        lemma_power_grows(10, (n - z + 324) as nat, (n - point) as nat);
        assert(v * power(2, 1075) < top * power(10, 324)) by (nonlinear_arith)
            requires
                v < top,
                power(2, 1075) < power(10, 324),
                v >= 1,
        ;
        lemma_underflow(v, power(10, (n - point) as nat));
    } else {
        assert(v == 0);
    }
}


/// Numbers whose first significant digits stand equally far out of the
/// range of doubles round alike: both beyond every finite double, or both
/// to zero.
pub proof fn lemma_far_points(d: Seq<u8>, p1: int, p2: int)
    requires
        all_digits(d),
        (p1 - zeros_from(d, 0) > 309 && p2 - zeros_from(d, 0) > 309) || (p1 - zeros_from(d, 0) < -323
            && p2 - zeros_from(d, 0) < -323),
    ensures
        double_ceiling(fraction_num(d, p1), fraction_den(d, p1)) == double_ceiling(
            fraction_num(d, p2),
            fraction_den(d, p2),
        ),
{
    lemma_significant_digits(d);
    lemma_zeros_from_bounds(d, 0);
    if zeros_from(d, 0) == d.len() {
        assert(digits_value(d) == 0);
        assert(0 * power(10, (p1 - d.len()) as nat) == 0);
        assert(0 * power(10, (p2 - d.len()) as nat) == 0);
    } else if p1 - zeros_from(d, 0) > 309 {
        lemma_huge(d, p1);
        lemma_huge(d, p2);
    } else {
        lemma_tiny(d, p1);
        lemma_tiny(d, p2);
    }
}

/// The whole number that the double nearest to the number with digits `d`
/// and the decimal point after the first `point` of them rounds up to.
pub fn decimal_digits_ceiling(d: &Vec<u8>, point: i128) -> (res: Option<u64>)
    requires
        all_digits(d@),
        -0x1_0000_0000_0000_0000_0000 <= point <= 0x1_0000_0000_0000_0000_0000,
    ensures
        res == double_ceiling(fraction_num(d@, point as int), fraction_den(d@, point as int)),
{
    let n = d.len();
    let mut z: usize = 0;
    proof {
        lemma_zeros_from_bounds(d@, 0);
    }
    while z < n && d[z] == 48
        invariant
            n == d@.len(),
            z <= zeros_from(d@, 0),
            forall|j: int| 0 <= j < zeros_from(d@, 0) ==> #[trigger] d@[j] == 48,
            zeros_from(d@, 0) <= n,
            zeros_from(d@, 0) < n ==> d@[zeros_from(d@, 0)] != 48,
        decreases n - z,
    {
        z = z + 1;
    }
    assert(z == zeros_from(d@, 0));
    proof {
        lemma_significant_digits(d@);
    }
    if z == n {
        proof {
            assert(digits_value(d@) == 0);
            assert(0 * power(10, (point - n) as nat) == 0);
        }
        return Some(0);
    }
    let lead: i128 = point - z as i128;
    if lead > 309 {
        proof {
            lemma_huge(d@, point as int);
        }
        return None;
    }
    if lead < -323 {
        proof {
            lemma_tiny(d@, point as int);
        }
        return Some(0);
    }
    let mut a: Vec<u8> = Vec::new();
    let mut i = z;
    while i < n
        invariant
            z <= i <= n == d@.len(),
            a@ == d@.subrange(z as int, i as int),
        decreases n - i,
    {
        a.push(d[i]);
        assert(d@.subrange(z as int, i + 1) =~= d@.subrange(z as int, i as int).push(d@[i as int]));
        i = i + 1;
    }
    assert(a@ =~= d@.skip(z as int));
    let ghost sig = a@;
    let mut extra: i128 = 0;
    if point >= n as i128 {
        while extra < point - n as i128
            invariant
                n == d@.len(),
                -0x1_0000_0000_0000_0000_0000 <= point <= 0x1_0000_0000_0000_0000_0000,
                0 <= extra <= point - n,
                a@ == sig + zero_digits(extra as nat),
            decreases point - n - extra,
        {
            a.push(48);
            extra = extra + 1;
            assert(a@ =~= sig + zero_digits(extra as nat));
        }
    }
    let mut b: Vec<u8> = Vec::new();
    b.push(49);
    let mut k: i128 = 0;
    if point < n as i128 {
        while k < n as i128 - point
            invariant
                n == d@.len(),
                -0x1_0000_0000_0000_0000_0000 <= point <= 0x1_0000_0000_0000_0000_0000,
                0 <= k <= n - point,
                b@ == seq![49u8] + zero_digits(k as nat),
            decreases n - point - k,
        {
            b.push(48);
            k = k + 1;
            assert(b@ =~= seq![49u8] + zero_digits(k as nat));
        }
    }
    proof {
        assert(b@ =~= seq![49u8] + zero_digits(k as nat));
        lemma_append_zeros(sig, extra as nat);
        lemma_digit_in_front(49, zero_digits(k as nat));
        lemma_zero_digits_value(k as nat);
        lemma_power_pos(10, k as nat);
        lemma_power_pos(10, (n - z - 1) as nat);
        lemma_power_pos(10, extra as nat);
        assert(is_digit(49u8));
        assert(all_digits(b@)) by {
            assert forall|j: int| 0 <= j < b@.len() implies is_digit(#[trigger] b@[j]) by {
                if j > 0 {
                    assert(b@[j] == zero_digits(k as nat)[j - 1]);
                }
            }
        }
        assert(all_digits(a@)) by {
            assert forall|j: int| 0 <= j < a@.len() implies is_digit(#[trigger] a@[j]) by {
                if j >= sig.len() {
                    assert(a@[j] == zero_digits(extra as nat)[j - sig.len()]);
                } else {
                    assert(a@[j] == sig[j]);
                }
            }
        }
        assert(a@[0] == sig[0]);
        assert(digits_value(b@) == power(10, k as nat));
        if point >= n {
            assert(extra == point - n);
            assert(k == 0);
            assert(power(10, 0) == 1);
        } else {
            assert(extra == 0);
            assert(power(10, 0) == 1);
            assert(digits_value(sig) * 1 == digits_value(sig));
        }
        let v = digits_value(d@);
        let p = power(10, extra as nat);
        assert(v * p >= 1) by (nonlinear_arith)
            requires
                v >= 1,
                p >= 1,
        ;
    }
    fraction_ceiling(&a, &b)
}

/// `2^93 < 10^28`.
proof fn lemma_power2_93()
    ensures
        power(2, 93) < power(10, 28),
{
    assert(power(2, 31) == 2147483648) by {
        reveal_with_fuel(power, 32);
    }
    assert(power(10, 14) == 100000000000000) by {
        reveal_with_fuel(power, 15);
    }
    lemma_power_adds(2, 31, 31);
    lemma_power_adds(2, 62, 31);
    lemma_power_adds(10, 14, 14);
    assert(2147483648 * 2147483648 * 2147483648 < 100000000000000 * 100000000000000) by (nonlinear_arith);
}

/// `2^(93 j) <= 10^(28 j)`.
proof fn lemma_power2_below_power10(j: nat)
    ensures
        power(2, 93 * j) <= power(10, 28 * j),
    decreases j,
{
    if j == 0 {
        assert(power(2, 0) == 1 && power(10, 0) == 1);
    } else {
        lemma_power2_below_power10((j - 1) as nat);
        lemma_power2_93();
        lemma_power_adds(2, 93 * (j - 1) as nat, 93);
        lemma_power_adds(10, 28 * (j - 1) as nat, 28);
        assert(93 * (j - 1) as nat + 93 == 93 * j);
        assert(28 * (j - 1) as nat + 28 == 28 * j);
        let a = power(2, 93 * (j - 1) as nat);
        let b = power(10, 28 * (j - 1) as nat);
        let c = power(2, 93);
        let d = power(10, 28);
        assert(a * c <= b * d) by (nonlinear_arith)
            requires
                a <= b,
                c < d,
        ;
    }
}

/// Every finite double lies below `10^309`.
proof fn lemma_doubles_below_1e309()
    ensures
        power(2, 1024) <= power(10, 309),
{
    lemma_power2_below_power10(11);
    lemma_power_adds(2, 1023, 1);
    lemma_power_adds(10, 308, 1);
    assert(power(2, 1) == 2 && power(10, 1) == 10) by {
        reveal_with_fuel(power, 2);
    }
    let a = power(2, 1023);
    let b = power(10, 308);
    assert(a * 2 <= b * 10) by (nonlinear_arith)
        requires
            a <= b,
    ;
}

/// Half the smallest double lies above `10^-324`: `2^1075 < 10^324`.
proof fn lemma_half_smallest_double_above_1e_324()
    ensures
        power(2, 1075) < power(10, 324),
{
    lemma_power2_below_power10(11);
    lemma_power_adds(2, 1023, 52);
    lemma_power_adds(10, 308, 16);
    assert(power(2, 52) < power(10, 16)) by {
        reveal_with_fuel(power, 53);
    }
    let a = power(2, 1023);
    let b = power(10, 308);
    let c = power(2, 52);
    let d = power(10, 16);
    lemma_power_pos(10, 308);
    assert(a * c < b * d) by (nonlinear_arith)
        requires
            a <= b,
            c < d,
            b >= 1,
    ;
}

} // verus!
