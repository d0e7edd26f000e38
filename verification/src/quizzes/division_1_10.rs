//! Division practice; the quotient is shown rounded to one decimal.

use vstd::prelude::*;
use crate::quiz::Question;
use crate::rng::rand_i64;
use crate::text::{i64_string, int_string, round_away, tenths_str, tenths_string};
use crate::util::{answers_match, validate_input};

verus! {

#[derive(Clone, Debug, PartialEq)]
pub struct DivisionQuestion1_10 {
    first_number: i32,
    second_number: i32,
    answer_text: String,
}

/// The prompt text for dividing `a` by `b`.
pub open spec fn division_prompt(a: int, b: int) -> Seq<char> {
    "Beräkna "@ + int_string(a) + " / "@ + int_string(b) + "?"@
}

/// The quotient `a / b` in tenths, rounded half away from zero.
pub open spec fn quotient_tenths(a: int, b: int) -> int {
    let sign = if (a < 0) != (b < 0) {
        -1int
    } else {
        1int
    };
    let am = if a < 0 {
        -a
    } else {
        a
    };
    let bm = if b < 0 {
        -b
    } else {
        b
    };
    sign * round_away(10 * am, bm)
}

impl DivisionQuestion1_10 {
    pub closed spec fn spec_first(self) -> int {
        self.first_number as int
    }

    pub closed spec fn spec_second(self) -> int {
        self.second_number as int
    }

    pub closed spec fn spec_answer(self) -> Seq<char> {
        self.answer_text@
    }

    pub fn new(first: i32, second: i32) -> (q: Self)
        requires
            second != 0,
        ensures
            q.spec_first() == first,
            q.spec_second() == second,
            q.spec_answer() == tenths_string(quotient_tenths(first as int, second as int)),
    {
        let am: i64 = if first < 0 {
            -(first as i64)
        } else {
            first as i64
        };
        let bm: i64 = if second < 0 {
            -(second as i64)
        } else {
            second as i64
        };
        let mag: i128 = {
            let p: i128 = 10 * am as i128;
            let q2: i128 = bm as i128;
            crate::text::round_away_i128(p, q2)
        };
        let neg = (first < 0) != (second < 0);
        let t: i128 = if neg {
            -mag
        } else {
            mag
        };
        proof {
            assert(mag >= 0) by {
                assert(round_away(10 * am as int, bm as int) >= 0);
            }
            assert(t == quotient_tenths(first as int, second as int)) by {
                if neg {
                    assert(quotient_tenths(first as int, second as int) == -1 * round_away(
                        10 * am as int,
                        bm as int,
                    ));
                } else {
                    assert(quotient_tenths(first as int, second as int) == 1 * round_away(
                        10 * am as int,
                        bm as int,
                    ));
                }
            }
        }
        DivisionQuestion1_10 {
            first_number: first,
            second_number: second,
            answer_text: tenths_str(t),
        }
    }

    pub fn random() -> (q: Self)
        ensures
            1 <= q.spec_second() <= q.spec_first() <= 10,
            q.spec_answer() == tenths_string(quotient_tenths(q.spec_first(), q.spec_second())),
    {
        let numerator = rand_i64(1, 11) as i32;
        let denominator = rand_i64(1, numerator as i64 + 1) as i32;
        Self::new(numerator, denominator)
    }
}

impl Question for DivisionQuestion1_10 {
    fn prompt(&self) -> (r: String)
        ensures
            r@ == division_prompt(self.spec_first(), self.spec_second()),
    {
        let mut s = String::from_str("Beräkna ");
        let a = i64_string(self.first_number as i64);
        s.append(a.as_str());
        let mid = String::from_str(" / ");
        s.append(mid.as_str());
        let b = i64_string(self.second_number as i64);
        s.append(b.as_str());
        let tail = String::from_str("?");
        s.append(tail.as_str());
        proof {
            assert(s@ =~= division_prompt(self.spec_first(), self.spec_second()));
        }
        s
    }

    fn answer(&self) -> (r: &str)
        ensures
            r@ == self.spec_answer(),
    {
        self.answer_text.as_str()
    }

    fn check_answer(&self, answer: &str) -> (r: bool)
        ensures
            r == answers_match(self.spec_answer(), answer@),
    {
        validate_input(self.answer_text.as_str(), answer)
    }

    fn display(&self) -> (r: String)
        ensures
            r@ == division_prompt(self.spec_first(), self.spec_second()),
    {
        self.prompt()
    }
}

} // verus!
