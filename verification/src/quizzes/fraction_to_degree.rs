//! Turn a fraction of a full circle into degrees, to one decimal.

use vstd::prelude::*;
use crate::quiz::Question;
use crate::rng::rand_i64;
use crate::text::{int_string, round_away, tenths_str, tenths_string};
use crate::util::{answers_match, validate_input};

verus! {

#[derive(Clone, Debug, PartialEq)]
pub struct FractionToDegree {
    nominator: i32,
    denominator: i32,
    answer: String,
}

/// `(n / d) * 360` in tenths of a degree, rounded half away from zero.
pub open spec fn degree_tenths(n: int, d: int) -> int {
    let neg = (n < 0) != (d < 0);
    let nm = if n < 0 {
        -n
    } else {
        n
    };
    let dm = if d < 0 {
        -d
    } else {
        d
    };
    if neg {
        -round_away(3600 * nm, dm)
    } else {
        round_away(3600 * nm, dm)
    }
}

/// The prompt text posing the fraction.
pub open spec fn fraction_prompt(n: int, d: int) -> Seq<char> {
    "Hur många grader är "@ + int_string(n) + "/"@ + int_string(d)
        + "-delar av en cirkel?"@
}

impl FractionToDegree {
    pub closed spec fn spec_nominator(self) -> int {
        self.nominator as int
    }

    pub closed spec fn spec_denominator(self) -> int {
        self.denominator as int
    }

    pub closed spec fn spec_answer(self) -> Seq<char> {
        self.answer@
    }

    pub fn new(nominator: i32, denominator: i32) -> (q: Self)
        requires
            denominator != 0,
        ensures
            q.spec_nominator() == nominator,
            q.spec_denominator() == denominator,
            q.spec_answer() == tenths_string(degree_tenths(nominator as int, denominator as int)),
    {
        let nm: i128 = if nominator < 0 {
            -(nominator as i128)
        } else {
            nominator as i128
        };
        let dm: i128 = if denominator < 0 {
            -(denominator as i128)
        } else {
            denominator as i128
        };
        let mag = crate::text::round_away_i128(3600 * nm, dm);
        let neg = (nominator < 0) != (denominator < 0);
        let t: i128 = if neg {
            -mag
        } else {
            mag
        };
        proof {
            assert(round_away(3600 * nm as int, dm as int) >= 0);
            assert(t == degree_tenths(nominator as int, denominator as int));
        }
        FractionToDegree { nominator, denominator, answer: tenths_str(t) }
    }

    pub fn random() -> (q: Self)
        ensures
            1 <= q.spec_nominator() <= q.spec_denominator() <= 12,
            q.spec_answer() == tenths_string(
                degree_tenths(q.spec_nominator(), q.spec_denominator()),
            ),
    {
        let denominator = rand_i64(1, 13) as i32;
        let nominator = rand_i64(1, denominator as i64 + 1) as i32;
        Self::new(nominator, denominator)
    }
}

impl Question for FractionToDegree {
    fn prompt(&self) -> (r: String)
        ensures
            r@ == fraction_prompt(self.spec_nominator(), self.spec_denominator()),
    {
        let mut s = String::from_str("Hur många grader är ");
        let a = crate::text::i64_string(self.nominator as i64);
        s.append(a.as_str());
        let mid = String::from_str("/");
        s.append(mid.as_str());
        let b = crate::text::i64_string(self.denominator as i64);
        s.append(b.as_str());
        let tail = String::from_str("-delar av en cirkel?");
        s.append(tail.as_str());
        proof {
            assert(s@ =~= fraction_prompt(self.spec_nominator(), self.spec_denominator()));
        }
        s
    }

    fn answer(&self) -> (r: &str)
        ensures
            r@ == self.spec_answer(),
    {
        self.answer.as_str()
    }

    fn check_answer(&self, answer: &str) -> (r: bool)
        ensures
            r == answers_match(self.spec_answer(), answer@),
    {
        validate_input(self.answer.as_str(), answer)
    }

    fn display(&self) -> (r: String)
        ensures
            r@ == fraction_prompt(self.spec_nominator(), self.spec_denominator()),
    {
        self.prompt()
    }
}

} // verus!
