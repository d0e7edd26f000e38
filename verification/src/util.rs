//! Answer checking: lenient comparison of a typed answer against the
//! expected one, and clock-time input checking.

use vstd::prelude::*;
use crate::normalize::{trim, trim_spec};
use crate::text::{
    all_digits, decimal_mantissa, decimal_neg, decimal_scale, decimal_shape, digits_value,
    parse_decimal, parse_digits, pow10, pow10_u128, round_away, round_away_i128, str_eq,
};

verus! {

/// Two decimal literals denote values within one ten-thousandth of one
/// another.
pub open spec fn decimals_close(e: Seq<char>, u: Seq<char>) -> bool {
    let me = if decimal_neg(e) {
        -decimal_mantissa(e)
    } else {
        decimal_mantissa(e)
    };
    let mu = if decimal_neg(u) {
        -decimal_mantissa(u)
    } else {
        decimal_mantissa(u)
    };
    let d = me * pow10((decimal_scale(u) + 4) as nat) - mu * pow10(
        (decimal_scale(e) + 4) as nat,
    );
    (if d < 0 {
        -d
    } else {
        d
    }) < pow10((decimal_scale(e) + decimal_scale(u)) as nat)
}

/// The literal's value rounded to tenths, ties away from zero, as
/// rounding to one decimal place does.
pub open spec fn decimal_tenths(s: Seq<char>) -> int {
    let m = decimal_mantissa(s);
    let k = decimal_scale(s);
    let mag = if k == 0 {
        m * 10
    } else {
        round_away(m, pow10((k - 1) as nat))
    };
    if decimal_neg(s) {
        -mag
    } else {
        mag
    }
}

/// When a typed answer counts as the expected one: letter for letter
/// after trimming, or both read as decimal literals whose values lie
/// within one ten-thousandth of each other or agree once rounded to one
/// decimal place.
pub open spec fn answers_match(expected: Seq<char>, user: Seq<char>) -> bool {
    ||| expected == trim_spec(user)
    ||| (decimal_shape(expected) && decimal_shape(trim_spec(user)) && (decimals_close(
        expected,
        trim_spec(user),
    ) || decimal_tenths(expected) == decimal_tenths(trim_spec(user))))
}

pub fn validate_input(expected_answer_str: &str, user_answer_str: &str) -> (r: bool)
    ensures
        r == answers_match(expected_answer_str@, user_answer_str@),
{
    let t = trim(user_answer_str);
    if str_eq(expected_answer_str, t.as_str()) {
        return true;
    }
    let pe = parse_decimal(expected_answer_str);
    let pu = parse_decimal(t.as_str());
    match (pe, pu) {
        (Some((ne, me, ke)), Some((nu, mu, ku))) => {
            proof {
                crate::text::lemma_pow10_twenty_eight();
                crate::text::lemma_pow10_le((ku + 4) as nat, 28);
                crate::text::lemma_pow10_le((ke + 4) as nat, 28);
                crate::text::lemma_pow10_le((ke + ku) as nat, 28);
                crate::text::lemma_pow10_le(17, 28);
            }
            let pku = pow10_u128(ku + 4);
            let pke = pow10_u128(ke + 4);
            let bound = pow10_u128(ke + ku);
            proof {
                crate::text::lemma_pow10_le((ku + 4) as nat, 17);
                crate::text::lemma_pow10_le((ke + 4) as nat, 17);
                vstd::arithmetic::mul::lemma_mul_upper_bound(
                    me as int,
                    1000000000000,
                    pku as int,
                    pow10(17),
                );
                vstd::arithmetic::mul::lemma_mul_upper_bound(
                    mu as int,
                    1000000000000,
                    pke as int,
                    pow10(17),
                );
                assert(pow10(17) == 100000000000000000) by {
                    crate::text::lemma_pow10_twelve();
                    assert(pow10(13) == 10000000000000);
                    assert(pow10(14) == 100000000000000);
                    assert(pow10(15) == 1000000000000000);
                    assert(pow10(16) == 10000000000000000);
                    assert(pow10(17) == 100000000000000000);
                }
            }
            let prod_e: i128 = (me as i128) * (pku as i128);
            let prod_u: i128 = (mu as i128) * (pke as i128);
            proof {
                vstd::arithmetic::mul::lemma_mul_unary_negation(me as int, pku as int);
                vstd::arithmetic::mul::lemma_mul_unary_negation(mu as int, pke as int);
            }
            let se: i128 = if ne {
                -prod_e
            } else {
                prod_e
            };
            let su: i128 = if nu {
                -prod_u
            } else {
                prod_u
            };
            let d = se - su;
            let ad = if d < 0 {
                -d
            } else {
                d
            };
            if ad < bound as i128 {
                proof {
                    assert(decimals_close(expected_answer_str@, t@));
                }
                return true;
            }
            let te_mag: i128 = if ke == 0 {
                (me as i128) * 10
            } else {
                proof {
                    crate::text::lemma_pow10_le((ke - 1) as nat, 17);
                }
                round_away_i128(me as i128, pow10_u128(ke - 1) as i128)
            };
            let tu_mag: i128 = if ku == 0 {
                (mu as i128) * 10
            } else {
                proof {
                    crate::text::lemma_pow10_le((ku - 1) as nat, 17);
                }
                round_away_i128(mu as i128, pow10_u128(ku - 1) as i128)
            };
            let te = if ne {
                -te_mag
            } else {
                te_mag
            };
            let tu = if nu {
                -tu_mag
            } else {
                tu_mag
            };
            proof {
                assert(te == decimal_tenths(expected_answer_str@));
                assert(tu == decimal_tenths(t@));
            }
            te == tu
        },
        _ => {
            proof {
                assert(!(decimal_shape(expected_answer_str@) && decimal_shape(t@)));
            }
            false
        },
    }
}

/// Two decimal literals denote values within one hundredth of one
/// another.
pub open spec fn decimals_close_cent(e: Seq<char>, u: Seq<char>) -> bool {
    let me = if decimal_neg(e) {
        -decimal_mantissa(e)
    } else {
        decimal_mantissa(e)
    };
    let mu = if decimal_neg(u) {
        -decimal_mantissa(u)
    } else {
        decimal_mantissa(u)
    };
    let d = me * pow10((decimal_scale(u) + 2) as nat) - mu * pow10(
        (decimal_scale(e) + 2) as nat,
    );
    (if d < 0 {
        -d
    } else {
        d
    }) < pow10((decimal_scale(e) + decimal_scale(u)) as nat)
}

/// When a typed equation answer counts: if both the expected text and
/// the trimmed answer read as decimal literals, their values must lie
/// within one hundredth; otherwise the trimmed text must match exactly.
pub open spec fn equation_answer_matches(expected: Seq<char>, user: Seq<char>) -> bool {
    if decimal_shape(expected) && decimal_shape(trim_spec(user)) {
        decimals_close_cent(expected, trim_spec(user))
    } else {
        expected == trim_spec(user)
    }
}

pub fn check_equation_answer(expected: &str, user: &str) -> (r: bool)
    ensures
        r == equation_answer_matches(expected@, user@),
{
    let t = trim(user);
    let pe = parse_decimal(expected);
    let pu = parse_decimal(t.as_str());
    match (pe, pu) {
        (Some((ne, me, ke)), Some((nu, mu, ku))) => {
            proof {
                crate::text::lemma_pow10_twenty_eight();
                crate::text::lemma_pow10_le((ku + 2) as nat, 28);
                crate::text::lemma_pow10_le((ke + 2) as nat, 28);
                crate::text::lemma_pow10_le((ke + ku) as nat, 28);
            }
            let pku = pow10_u128(ku + 2);
            let pke = pow10_u128(ke + 2);
            let bound = pow10_u128(ke + ku);
            proof {
                crate::text::lemma_pow10_le((ku + 2) as nat, 15);
                crate::text::lemma_pow10_le((ke + 2) as nat, 15);
                vstd::arithmetic::mul::lemma_mul_upper_bound(
                    me as int,
                    1000000000000,
                    pku as int,
                    pow10(15),
                );
                vstd::arithmetic::mul::lemma_mul_upper_bound(
                    mu as int,
                    1000000000000,
                    pke as int,
                    pow10(15),
                );
                assert(pow10(15) == 1000000000000000) by {
                    crate::text::lemma_pow10_twelve();
                    assert(pow10(13) == 10000000000000);
                    assert(pow10(14) == 100000000000000);
                    assert(pow10(15) == 1000000000000000);
                }
                vstd::arithmetic::mul::lemma_mul_unary_negation(me as int, pku as int);
                vstd::arithmetic::mul::lemma_mul_unary_negation(mu as int, pke as int);
            }
            let prod_e: i128 = (me as i128) * (pku as i128);
            let prod_u: i128 = (mu as i128) * (pke as i128);
            let se: i128 = if ne {
                -prod_e
            } else {
                prod_e
            };
            let su: i128 = if nu {
                -prod_u
            } else {
                prod_u
            };
            let d = se - su;
            let ad = if d < 0 {
                -d
            } else {
                d
            };
            ad < bound as i128
        },
        _ => str_eq(expected, t.as_str()),
    }
}

/// The position of the first `:` in the string, or its length if none.
pub open spec fn first_colon(s: Seq<char>) -> int
    decreases s.len(),
{
    if s.len() == 0 {
        0
    } else if s[0] == ':' {
        0
    } else {
        1 + first_colon(s.drop_first())
    }
}

proof fn lemma_first_colon_at(s: Seq<char>, i: int)
    requires
        0 <= i <= s.len(),
        forall|j: int| 0 <= j < i ==> s[j] != ':',
        i < s.len() ==> s[i] == ':',
    ensures
        first_colon(s) == i,
    decreases i,
{
    if s.len() == 0 {
    } else if i == 0 {
    } else {
        let t = s.drop_first();
        assert(forall|j: int| 0 <= j < i - 1 ==> t[j] != ':');
        lemma_first_colon_at(t, i - 1);
    }
}

/// A digit string that reads as a value at most 255, as `u8` accepts.
pub open spec fn u8_parses(s: Seq<char>) -> bool {
    1 <= s.len() <= 12 && all_digits(s) && digits_value(s) <= 255
}

/// What counts as typing the time `h:m`: either an `H:M` form whose
/// parts read as `h` and `m` and are valid clock fields, or a bare
/// three- or four-digit `HMM`/`HHMM` form with the same property.
pub open spec fn time_input_matches(s: Seq<char>, h: int, m: int) -> bool {
    let t = trim_spec(s);
    let ci = first_colon(t);
    if ci < t.len() {
        let hs = t.subrange(0, ci);
        let ms = t.subrange(ci + 1, t.len() as int);
        &&& hs.len() >= 1
        &&& ms.len() >= 1
        &&& u8_parses(hs)
        &&& u8_parses(ms)
        &&& digits_value(hs) < 24
        &&& digits_value(ms) < 60
        &&& digits_value(hs) == h
        &&& digits_value(ms) == m
    } else {
        &&& all_digits(t)
        &&& (t.len() == 3 || t.len() == 4)
        &&& digits_value(t) / 100 < 24
        &&& digits_value(t) % 100 < 60
        &&& digits_value(t) / 100 == h
        &&& digits_value(t) % 100 == m
    }
}

pub fn validate_time_input(user_input: &str, expected_hour: u8, expected_minute: u8) -> (r: bool)
    ensures
        r == time_input_matches(user_input@, expected_hour as int, expected_minute as int),
{
    let t = trim(user_input);
    let ts = t.as_str();
    let n = ts.unicode_len();
    let mut ci: usize = 0;
    while ci < n && ts.get_char(ci) != ':'
        invariant
            n == ts@.len(),
            ts@ == t@,
            0 <= ci <= n,
            forall|j: int| 0 <= j < ci ==> ts@[j] != ':',
        decreases n - ci,
    {
        ci = ci + 1;
    }
    proof {
        lemma_first_colon_at(t@, ci as int);
    }
    if ci < n {
        // an H:M form
        let hs = ts.substring_char(0, ci);
        let ms = ts.substring_char(ci + 1, n);
        if hs.unicode_len() == 0 || ms.unicode_len() == 0 {
            return false;
        }
        let hp = parse_digits(hs);
        let mp = parse_digits(ms);
        match (hp, mp) {
            (Some(hv), Some(mv)) => {
                if hv <= 255 && mv <= 255 {
                    hv < 24 && mv < 60 && hv == expected_hour as u64 && mv == expected_minute
                        as u64
                } else {
                    false
                }
            },
            _ => false,
        }
    } else {
        // a bare HMM or HHMM form
        if n != 3 && n != 4 {
            return false;
        }
        let p = parse_digits(ts);
        match p {
            Some(v) => {
                let hv = v / 100;
                let mv = v % 100;
                hv < 24 && mv < 60 && hv == expected_hour as u64 && mv == expected_minute as u64
            },
            None => false,
        }
    }
}

} // verus!
