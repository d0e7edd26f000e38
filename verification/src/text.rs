//! Small verified text helpers: equality, decimal rendering of integers
//! and tenths, and parsing of digit strings and decimal literals.

use vstd::prelude::*;
use crate::counting::count_where;

verus! {

/// String-slice equality, decided by value.
pub fn str_eq(a: &str, b: &str) -> (r: bool)
    ensures
        r == (a@ == b@),
{
    let s1: String = a.to_owned();
    let s2: String = b.to_owned();
    s1 == s2
}

pub open spec fn digit_char(d: int) -> char {
    if d == 0 {
        '0'
    } else if d == 1 {
        '1'
    } else if d == 2 {
        '2'
    } else if d == 3 {
        '3'
    } else if d == 4 {
        '4'
    } else if d == 5 {
        '5'
    } else if d == 6 {
        '6'
    } else if d == 7 {
        '7'
    } else if d == 8 {
        '8'
    } else {
        '9'
    }
}

/// The decimal digits of `n`, most significant first.
pub open spec fn dec_digits(n: nat) -> Seq<char>
    decreases n,
{
    if n < 10 {
        seq![digit_char(n as int)]
    } else {
        dec_digits(n / 10) + seq![digit_char((n % 10) as int)]
    }
}

/// The decimal rendering of `v`, with a leading minus sign if negative.
pub open spec fn int_string(v: int) -> Seq<char> {
    if v < 0 {
        seq!['-'] + dec_digits((-v) as nat)
    } else {
        dec_digits(v as nat)
    }
}

fn digit_str(d: u128) -> (r: String)
    requires
        d < 10,
    ensures
        r@ == seq![digit_char(d as int)],
{
    let r = if d == 0 {
        String::from_str("0")
    } else if d == 1 {
        String::from_str("1")
    } else if d == 2 {
        String::from_str("2")
    } else if d == 3 {
        String::from_str("3")
    } else if d == 4 {
        String::from_str("4")
    } else if d == 5 {
        String::from_str("5")
    } else if d == 6 {
        String::from_str("6")
    } else if d == 7 {
        String::from_str("7")
    } else if d == 8 {
        String::from_str("8")
    } else {
        String::from_str("9")
    };
    proof {
        reveal_strlit("0");
        reveal_strlit("1");
        reveal_strlit("2");
        reveal_strlit("3");
        reveal_strlit("4");
        reveal_strlit("5");
        reveal_strlit("6");
        reveal_strlit("7");
        reveal_strlit("8");
        reveal_strlit("9");
        assert(r@ =~= seq![digit_char(d as int)]);
    }
    r
}

/// Render an unsigned value in decimal.
pub fn u128_string(n: u128) -> (r: String)
    ensures
        r@ == dec_digits(n as nat),
    decreases n,
{
    if n < 10 {
        digit_str(n)
    } else {
        let mut s = u128_string(n / 10);
        let d = digit_str(n % 10);
        s.append(d.as_str());
        proof {
            assert(s@ =~= dec_digits(n as nat));
        }
        s
    }
}

/// Render a signed value in decimal.
pub fn i128_string(v: i128) -> (r: String)
    requires
        v > i128::MIN,
    ensures
        r@ == int_string(v as int),
{
    if v < 0 {
        let mut s = String::from_str("-");
        let mag = u128_string((-v) as u128);
        s.append(mag.as_str());
        proof {
            reveal_strlit("-");
            assert(s@ =~= int_string(v as int));
        }
        s
    } else {
        u128_string(v as u128)
    }
}

pub fn i64_string(v: i64) -> (r: String)
    ensures
        r@ == int_string(v as int),
{
    i128_string(v as i128)
}

/// A value in tenths rendered like `{:.1}` with a trailing `.0` dropped:
/// `35` is "3.5", `30` is "3", `-5` is "-0.5".
pub open spec fn tenths_mag(t: nat) -> Seq<char> {
    if t % 10 == 0 {
        dec_digits(t / 10)
    } else {
        dec_digits(t / 10) + seq!['.'] + seq![digit_char((t % 10) as int)]
    }
}

pub open spec fn tenths_string(t: int) -> Seq<char> {
    if t < 0 {
        seq!['-'] + tenths_mag((-t) as nat)
    } else {
        tenths_mag(t as nat)
    }
}

pub fn tenths_str(t: i128) -> (r: String)
    requires
        t > i128::MIN,
    ensures
        r@ == tenths_string(t as int),
{
    let mag: u128 = if t < 0 {
        (-t) as u128
    } else {
        t as u128
    };
    let mut s = if t < 0 {
        let s0 = String::from_str("-");
        s0
    } else {
        String::new()
    };
    let whole = u128_string(mag / 10);
    s.append(whole.as_str());
    if mag % 10 != 0 {
        let dot = String::from_str(".");
        s.append(dot.as_str());
        let frac = digit_str(mag % 10);
        s.append(frac.as_str());
    }
    proof {
        reveal_strlit("-");
        reveal_strlit(".");
        assert(s@ =~= tenths_string(t as int));
    }
    s
}

/// A value in hundredths rendered like `{:.2}`: `225` is "2.25".
pub open spec fn hundredths_mag(h: nat) -> Seq<char> {
    dec_digits(h / 100) + seq!['.'] + seq![digit_char(((h / 10) % 10) as int)] + seq![
        digit_char((h % 10) as int),
    ]
}

pub open spec fn hundredths_string(h: int) -> Seq<char> {
    if h < 0 {
        seq!['-'] + hundredths_mag((-h) as nat)
    } else {
        hundredths_mag(h as nat)
    }
}

pub fn hundredths_str(h: i128) -> (r: String)
    requires
        h > i128::MIN,
    ensures
        r@ == hundredths_string(h as int),
{
    let mag: u128 = if h < 0 {
        (-h) as u128
    } else {
        h as u128
    };
    let mut s = if h < 0 {
        String::from_str("-")
    } else {
        String::new()
    };
    let whole = u128_string(mag / 100);
    s.append(whole.as_str());
    let dot = String::from_str(".");
    s.append(dot.as_str());
    let d1 = digit_str((mag / 10) % 10);
    s.append(d1.as_str());
    let d2 = digit_str(mag % 10);
    s.append(d2.as_str());
    proof {
        reveal_strlit("-");
        reveal_strlit(".");
        assert(s@ =~= hundredths_string(h as int));
    }
    s
}

/// Two-digit zero-padded rendering, as in a clock face.
pub open spec fn two_digit(n: int) -> Seq<char> {
    seq![digit_char(n / 10), digit_char(n % 10)]
}

pub fn two_digit_str(n: u8) -> (r: String)
    requires
        n < 100,
    ensures
        r@ == two_digit(n as int),
{
    let mut s = digit_str((n / 10) as u128);
    let d = digit_str((n % 10) as u128);
    s.append(d.as_str());
    proof {
        assert(s@ =~= two_digit(n as int));
    }
    s
}

/// Round `p / q` to the nearest integer, ties away from zero, as
/// `f32::round` does after scaling.
pub open spec fn round_away(p: int, q: int) -> int {
    if p >= 0 {
        (2 * p + q) / (2 * q)
    } else {
        -((2 * (-p) + q) / (2 * q))
    }
}

pub fn round_away_i128(p: i128, q: i128) -> (r: i128)
    requires
        q > 0,
        -(i128::MAX / 4) < p < i128::MAX / 4,
        q < i128::MAX / 4,
    ensures
        r == round_away(p as int, q as int),
{
    if p >= 0 {
        (2 * p + q) / (2 * q)
    } else {
        let m = (2 * (-p) + q) / (2 * q);
        -m
    }
}

/// Widening products, with the bounds Verus needs spelled out.
pub fn mul_i32(a: i32, b: i32) -> (r: i64)
    ensures
        r == a as int * b as int,
{
    proof {
        assert(-0x4000000000000000 <= a as int * b as int <= 0x4000000000000000)
            by (nonlinear_arith)
            requires
                -0x80000000 <= a as int <= 0x7fffffff,
                -0x80000000 <= b as int <= 0x7fffffff,
        ;
    }
    (a as i64) * (b as i64)
}

pub fn mul_u32(a: u32, b: u32) -> (r: u64)
    ensures
        r == a as int * b as int,
{
    proof {
        assert(a as int * b as int <= 0xffffffff * 0xffffffff) by (nonlinear_arith)
            requires
                0 <= a as int <= 0xffffffff,
                0 <= b as int <= 0xffffffff,
        ;
    }
    (a as u64) * (b as u64)
}

pub open spec fn pow10(n: nat) -> int
    decreases n,
{
    if n == 0 {
        1
    } else {
        10 * pow10((n - 1) as nat)
    }
}

pub proof fn lemma_pow10_le(a: nat, b: nat)
    requires
        a <= b,
    ensures
        0 < pow10(a) <= pow10(b),
    decreases b,
{
    if b > 0 {
        if a == b {
            lemma_pow10_le((a - 1) as nat, (b - 1) as nat);
        } else {
            lemma_pow10_le(a, (b - 1) as nat);
        }
    }
}

pub proof fn lemma_pow10_twelve()
    ensures
        pow10(12) == 1000000000000,
{
    assert(pow10(0) == 1);
    assert(pow10(1) == 10);
    assert(pow10(2) == 100);
    assert(pow10(3) == 1000);
    assert(pow10(4) == 10000);
    assert(pow10(5) == 100000);
    assert(pow10(6) == 1000000);
    assert(pow10(7) == 10000000);
    assert(pow10(8) == 100000000);
    assert(pow10(9) == 1000000000);
    assert(pow10(10) == 10000000000);
    assert(pow10(11) == 100000000000);
    assert(pow10(12) == 1000000000000);
}

pub open spec fn is_digit(c: char) -> bool {
    '0' <= c && c <= '9'
}

pub open spec fn digit_val(c: char) -> int {
    c as int - 48
}

/// The index predicate selecting digit positions of a string.
pub open spec fn digit_pred(s: Seq<char>) -> spec_fn(int) -> bool {
    |i: int| is_digit(s[i])
}

pub open spec fn all_digits(s: Seq<char>) -> bool {
    forall|i: int| 0 <= i < s.len() ==> is_digit(#[trigger] s[i])
}

/// The value of a digit string read in base ten.
pub open spec fn digits_value(s: Seq<char>) -> int
    decreases s.len(),
{
    if s.len() == 0 {
        0
    } else {
        digits_value(s.drop_last()) * 10 + digit_val(s.last())
    }
}

/// Parse a plain digit string of at most 12 digits.
pub fn parse_digits(s: &str) -> (r: Option<u64>)
    ensures
        match r {
            Some(v) => 1 <= s@.len() <= 12 && all_digits(s@) && v == digits_value(s@),
            None => !(1 <= s@.len() <= 12 && all_digits(s@)),
        },
{
    let n = s.unicode_len();
    if n < 1 || n > 12 {
        return None;
    }
    let mut acc: u64 = 0;
    let mut i: usize = 0;
    proof {
        lemma_pow10_twelve();
    }
    while i < n
        invariant
            n == s@.len(),
            1 <= n <= 12,
            0 <= i <= n,
            all_digits(s@.subrange(0, i as int)),
            acc == digits_value(s@.subrange(0, i as int)),
            acc < pow10(i as nat),
            pow10(12) == 1000000000000,
        decreases n - i,
    {
        let c = s.get_char(i);
        if c < '0' || c > '9' {
            proof {
                assert(!is_digit(s@[i as int]));
            }
            return None;
        }
        proof {
            lemma_pow10_le(i as nat, 11);
        }
        let d: u64 = (c as u32 as u64) - 48;
        proof {
            assert(d == digit_val(s@[i as int]));
            assert(d < 10);
        }
        acc = acc * 10 + d;
        proof {
            let pre = s@.subrange(0, i as int);
            let cur = s@.subrange(0, i as int + 1);
            assert(cur.drop_last() =~= pre);
            assert(cur.last() == s@[i as int]);
        }
        i = i + 1;
    }
    proof {
        assert(s@.subrange(0, n as int) =~= s@);
    }
    Some(acc)
}

/// One decimal literal, as the quiz answers use them: an optional minus
/// sign, then digits with at most one decimal point among them, at least
/// one digit in all and at most 12.

/// How many `.` characters the string holds.
pub open spec fn dot_pred(s: Seq<char>) -> spec_fn(int) -> bool {
    |i: int| s[i] == '.'
}

pub open spec fn dot_count(s: Seq<char>) -> nat {
    count_where(s.len() as int, dot_pred(s))
}

pub open spec fn digit_count(s: Seq<char>) -> nat {
    count_where(s.len() as int, digit_pred(s))
}

/// The unsigned part of a decimal literal: every character a digit or a
/// point, at most one point, one to twelve digits.
pub open spec fn decimal_body(s: Seq<char>) -> bool {
    &&& forall|i: int| 0 <= i < s.len() ==> (is_digit(#[trigger] s[i]) || s[i] == '.')
    &&& dot_count(s) <= 1
    &&& 1 <= digit_count(s) <= 12
}

pub open spec fn decimal_shape(s: Seq<char>) -> bool {
    if s.len() > 0 && s[0] == '-' {
        decimal_body(s.drop_first())
    } else {
        decimal_body(s)
    }
}

/// The digits of the literal read as one integer, the point ignored.
pub open spec fn mantissa_of(s: Seq<char>) -> int
    decreases s.len(),
{
    if s.len() == 0 {
        0
    } else if s.last() == '.' {
        mantissa_of(s.drop_last())
    } else {
        mantissa_of(s.drop_last()) * 10 + digit_val(s.last())
    }
}

/// How many digits follow the decimal point; zero when there is none.
pub open spec fn trailing_digits(s: Seq<char>) -> nat
    decreases s.len(),
{
    if s.len() == 0 {
        0
    } else if s.last() == '.' {
        0
    } else {
        trailing_digits(s.drop_last()) + 1
    }
}

pub open spec fn scale_of(s: Seq<char>) -> nat {
    if dot_count(s) == 0 {
        0
    } else {
        trailing_digits(s)
    }
}

/// The parsed form of a decimal literal `s`: negative?, the digits as an
/// integer, and the power of ten they are scaled down by.
pub open spec fn decimal_neg(s: Seq<char>) -> bool {
    s.len() > 0 && s[0] == '-'
}

pub open spec fn decimal_mantissa(s: Seq<char>) -> int {
    if decimal_neg(s) {
        mantissa_of(s.drop_first())
    } else {
        mantissa_of(s)
    }
}

pub open spec fn decimal_scale(s: Seq<char>) -> nat {
    if decimal_neg(s) {
        scale_of(s.drop_first())
    } else {
        scale_of(s)
    }
}

proof fn lemma_mantissa_bound(s: Seq<char>)
    requires
        forall|i: int| 0 <= i < s.len() ==> (is_digit(#[trigger] s[i]) || s[i] == '.'),
    ensures
        0 <= mantissa_of(s) < pow10(digit_count(s)),
    decreases s.len(),
{
    if s.len() == 0 {
    } else {
        let pre = s.drop_last();
        assert(forall|i: int| 0 <= i < pre.len() ==> (is_digit(#[trigger] pre[i]) || pre[i] == '.'));
        lemma_mantissa_bound(pre);
        let dp = digit_pred(s);
        let dpp = digit_pred(pre);
        crate::counting::lemma_count_eq(pre.len() as int, dp, dpp);
        assert(count_where(s.len() as int, dp) == count_where(pre.len() as int, dp) + (if dp(
            s.len() - 1,
        ) {
            1nat
        } else {
            0nat
        }));
        if s.last() == '.' {
            assert(!is_digit(s.last()));
        } else {
            assert(is_digit(s.last()));
            assert(0 <= digit_val(s.last()) < 10);
        }
    }
}

/// Evaluate small powers of ten.
pub fn pow10_u128(k: u32) -> (r: u128)
    requires
        k <= 28,
    ensures
        r == pow10(k as nat),
{
    proof {
        lemma_pow10_le(k as nat, 28);
        lemma_pow10_twenty_eight();
    }
    let mut r: u128 = 1;
    let mut i: u32 = 0;
    while i < k
        invariant
            0 <= i <= k <= 28,
            r == pow10(i as nat),
            pow10(28) == 0x204fce5e3e25026110000000_u128 || true,
            pow10(i as nat) <= pow10(k as nat) <= pow10(28),
            pow10(28) == 10000000000000000000000000000,
        decreases k - i,
    {
        proof {
            lemma_pow10_le(i as nat + 1, k as nat);
        }
        r = r * 10;
        i = i + 1;
    }
    r
}

pub proof fn lemma_pow10_twenty_eight()
    ensures
        pow10(28) == 10000000000000000000000000000,
{
    lemma_pow10_twelve();
    assert(pow10(13) == 10000000000000);
    assert(pow10(14) == 100000000000000);
    assert(pow10(15) == 1000000000000000);
    assert(pow10(16) == 10000000000000000);
    assert(pow10(17) == 100000000000000000);
    assert(pow10(18) == 1000000000000000000);
    assert(pow10(19) == 10000000000000000000);
    assert(pow10(20) == 100000000000000000000);
    assert(pow10(21) == 1000000000000000000000);
    assert(pow10(22) == 10000000000000000000000);
    assert(pow10(23) == 100000000000000000000000);
    assert(pow10(24) == 1000000000000000000000000);
    assert(pow10(25) == 10000000000000000000000000);
    assert(pow10(26) == 100000000000000000000000000);
    assert(pow10(27) == 1000000000000000000000000000);
    assert(pow10(28) == 10000000000000000000000000000);
}

/// Parse a decimal literal into sign, digits and scale.
pub fn parse_decimal(s: &str) -> (r: Option<(bool, u64, u32)>)
    ensures
        r is Some <==> decimal_shape(s@),
        match r {
            Some((neg, m, k)) => neg == decimal_neg(s@) && m == decimal_mantissa(s@) && k
                == decimal_scale(s@) && m < 1000000000000 && k <= 13,
            None => true,
        },
{
    let n = s.unicode_len();
    let neg = n > 0 && s.get_char(0) == '-';
    let start: usize = if neg {
        1
    } else {
        0
    };
    let ghost body = if neg {
        s@.drop_first()
    } else {
        s@
    };
    proof {
        assert(body =~= s@.subrange(start as int, n as int));
        assert(neg == decimal_neg(s@));
    }
    if n - start > 13 {
        proof {
            // a body longer than 13 cannot be one dot and at most 12 digits
            if decimal_shape(s@) {
                if neg {
                    assert(body =~= s@.drop_first());
                }
                assert(decimal_body(body));
                let dp = digit_pred(body);
                let op = dot_pred(body);
                let rp = |i: int| !(is_digit(body[i]) || body[i] == '.');
                if forall|i: int| 0 <= i < body.len() ==> (is_digit(#[trigger] body[i]) || body[i]
                    == '.') {
                    crate::counting::lemma_count_partition(body.len() as int, dp, op);
                } else {
                    let iw = choose|i: int|
                        0 <= i < body.len() && !(is_digit(#[trigger] body[i]) || body[i] == '.');
                    assert(false);
                }
            }
        }
        return None;
    }
    let mut m: u64 = 0;
    let mut digits: u32 = 0;
    let mut dots: u32 = 0;
    let mut after: u32 = 0;
    let mut i: usize = start;
    proof {
        lemma_pow10_twelve();
        assert(body.subrange(0, 0) =~= Seq::<char>::empty());
    }
    while i < n
        invariant
            n == s@.len(),
            start <= i <= n,
            n - start <= 13,
            neg == decimal_neg(s@),
            neg ==> start == 1 && n >= 1,
            !neg ==> start == 0,
            body == s@.subrange(start as int, n as int),
            forall|j: int|
                0 <= j < i - start ==> (is_digit(#[trigger] body[j]) || body[j] == '.'),
            digits == digit_count(body.subrange(0, i - start)),
            dots == dot_count(body.subrange(0, i - start)),
            m == mantissa_of(body.subrange(0, i - start)),
            after == trailing_digits(body.subrange(0, i - start)),
            m < pow10(digits as nat),
            digits <= 12,
            digits <= i - start,
            dots <= i - start,
            after <= i - start,
            pow10(12) == 1000000000000,
        decreases n - i,
    {
        let c = s.get_char(i);
        proof {
            assert(body[i - start] == s@[i as int]);
        }
        let ghost pre = body.subrange(0, i - start);
        let ghost cur = body.subrange(0, i - start + 1);
        proof {
            assert(cur.drop_last() =~= pre);
            assert(cur.last() == body[i - start]);
            let dp = digit_pred(cur);
            let dpp = digit_pred(pre);
            crate::counting::lemma_count_eq(pre.len() as int, dp, dpp);
            assert(count_where(cur.len() as int, dp) == count_where(pre.len() as int, dp) + (
            if dp(cur.len() - 1) {
                1nat
            } else {
                0nat
            }));
            let op = dot_pred(cur);
            let opp = dot_pred(pre);
            crate::counting::lemma_count_eq(pre.len() as int, op, opp);
            assert(count_where(cur.len() as int, op) == count_where(pre.len() as int, op) + (
            if op(cur.len() - 1) {
                1nat
            } else {
                0nat
            }));
        }
        if c == '.' {
            dots = dots + 1;
            after = 0;
            proof {
                assert(!is_digit(cur.last()));
            }
        } else if '0' <= c && c <= '9' {
            if digits == 12 {
                proof {
                    if decimal_shape(s@) {
                        if neg {
                            assert(body =~= s@.drop_first());
                        } else {
                            assert(body =~= s@);
                        }
                        assert(decimal_body(body));
                        assert(is_digit(cur.last()));
                        assert(count_where(cur.len() as int, digit_pred(cur)) == 13);
                        crate::counting::lemma_count_eq(
                            cur.len() as int,
                            digit_pred(cur),
                            digit_pred(body),
                        );
                        crate::counting::lemma_count_prefix_le(
                            cur.len() as int,
                            body.len() as int,
                            digit_pred(body),
                        );
                        assert(digit_count(body) >= 13);
                        assert(false);
                    }
                }
                return None;
            }
            let d: u64 = (c as u32 as u64) - 48;
            proof {
                assert(is_digit(cur.last()));
                assert(d == digit_val(cur.last()));
                lemma_pow10_le(digits as nat, 11);
                assert(pow10(12) == 10 * pow10(11));
            }
            m = m * 10 + d;
            digits = digits + 1;
            after = after + 1;
        } else {
            proof {
                if decimal_shape(s@) {
                    if neg {
                        assert(body =~= s@.drop_first());
                    } else {
                        assert(body =~= s@);
                    }
                    assert(decimal_body(body));
                    assert(is_digit(body[i - start]) || body[i - start] == '.');
                    assert(false);
                }
            }
            return None;
        }
        i = i + 1;
    }
    proof {
        assert(body.subrange(0, n - start) =~= body);
    }
    if dots > 1 || digits == 0 {
        return None;
    }
    let k: u32 = if dots == 0 {
        0
    } else {
        after
    };
    proof {
        if neg {
            assert(body =~= s@.drop_first());
        }
        assert(decimal_body(body));
        assert(decimal_shape(s@));
        assert(m == decimal_mantissa(s@));
        assert(k == decimal_scale(s@));
        lemma_pow10_le(digits as nat, 12);
        lemma_pow10_twelve();
    }
    Some((neg, m, k))
}

/// The string with every space removed.
pub open spec fn strip_spaces(s: Seq<char>) -> Seq<char>
    decreases s.len(),
{
    if s.len() == 0 {
        s
    } else if s.last() == ' ' {
        strip_spaces(s.drop_last())
    } else {
        strip_spaces(s.drop_last()).push(s.last())
    }
}

fn chars_without_spaces(s: &str) -> (v: Vec<char>)
    ensures
        v@ == strip_spaces(s@),
{
    let n = s.unicode_len();
    let mut v: Vec<char> = Vec::new();
    let mut i: usize = 0;
    proof {
        assert(s@.subrange(0, 0) =~= Seq::<char>::empty());
    }
    while i < n
        invariant
            n == s@.len(),
            0 <= i <= n,
            v@ == strip_spaces(s@.subrange(0, i as int)),
        decreases n - i,
    {
        let c = s.get_char(i);
        proof {
            let pre = s@.subrange(0, i as int);
            let cur = s@.subrange(0, i as int + 1);
            assert(cur.drop_last() =~= pre);
            assert(cur.last() == s@[i as int]);
        }
        if c != ' ' {
            v.push(c);
        }
        i = i + 1;
    }
    proof {
        assert(s@.subrange(0, n as int) =~= s@);
    }
    v
}

/// Equality of two strings once every space is removed.
pub fn eq_modulo_spaces(a: &str, b: &str) -> (r: bool)
    ensures
        r == (strip_spaces(a@) == strip_spaces(b@)),
{
    let va = chars_without_spaces(a);
    let vb = chars_without_spaces(b);
    let n = va.len();
    if n != vb.len() {
        return false;
    }
    let mut i: usize = 0;
    while i < n
        invariant
            n == va@.len() == vb@.len(),
            va@ == strip_spaces(a@),
            vb@ == strip_spaces(b@),
            0 <= i <= n,
            forall|j: int| 0 <= j < i ==> va@[j] == vb@[j],
        decreases n - i,
    {
        if va[i] != vb[i] {
            return false;
        }
        i = i + 1;
    }
    proof {
        assert(va@ =~= vb@);
    }
    true
}

} // verus!
