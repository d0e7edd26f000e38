//! Multiplication practice with factors from one to nine.

use vstd::prelude::*;
use crate::quiz::Question;
use crate::rng::rand_i64;
use crate::text::{i64_string, int_string};
use crate::util::{answers_match, validate_input};

verus! {

#[derive(Clone, Debug, PartialEq)]
pub struct MultiplicationQuestion1_10 {
    first_number: i32,
    second_number: i32,
    answer_text: String,
}

/// The prompt text for multiplying `a` and `b`.
pub open spec fn multiplication_prompt(a: int, b: int) -> Seq<char> {
    "Beräkna "@ + int_string(a) + " × "@ + int_string(b) + "?"@
}

impl MultiplicationQuestion1_10 {
    pub closed spec fn spec_first(self) -> int {
        self.first_number as int
    }

    pub closed spec fn spec_second(self) -> int {
        self.second_number as int
    }

    pub closed spec fn spec_answer(self) -> Seq<char> {
        self.answer_text@
    }

    pub fn new(first: i32, second: i32) -> (q: Self)
        ensures
            q.spec_first() == first,
            q.spec_second() == second,
            q.spec_answer() == int_string(first * second),
    {
        let product: i64 = crate::text::mul_i32(first, second);
        MultiplicationQuestion1_10 {
            first_number: first,
            second_number: second,
            answer_text: i64_string(product),
        }
    }

    pub fn random() -> (q: Self)
        ensures
            1 <= q.spec_first() < 10,
            1 <= q.spec_second() < 10,
            q.spec_answer() == int_string(q.spec_first() * q.spec_second()),
    {
        let a = rand_i64(1, 10) as i32;
        let b = rand_i64(1, 10) as i32;
        Self::new(a, b)
    }
}

impl Question for MultiplicationQuestion1_10 {
    fn prompt(&self) -> (r: String)
        ensures
            r@ == multiplication_prompt(self.spec_first(), self.spec_second()),
    {
        let mut s = String::from_str("Beräkna ");
        let a = i64_string(self.first_number as i64);
        s.append(a.as_str());
        let mid = String::from_str(" × ");
        s.append(mid.as_str());
        let b = i64_string(self.second_number as i64);
        s.append(b.as_str());
        let tail = String::from_str("?");
        s.append(tail.as_str());
        proof {
            assert(s@ =~= multiplication_prompt(self.spec_first(), self.spec_second()));
        }
        s
    }

    fn answer(&self) -> (r: &str)
        ensures
            r@ == self.spec_answer(),
    {
        self.answer_text.as_str()
    }

    fn check_answer(&self, answer: &str) -> (r: bool)
        ensures
            r == answers_match(self.spec_answer(), answer@),
    {
        validate_input(self.answer_text.as_str(), answer)
    }

    fn display(&self) -> (r: String)
        ensures
            r@ == multiplication_prompt(self.spec_first(), self.spec_second()),
    {
        self.prompt()
    }
}

} // verus!
