//! A generic arithmetic question parametrized by its subject.

use vstd::prelude::*;
use crate::quiz::{Question, Subject};
use crate::rng::rand_i64;
use crate::text::{i64_string, int_string, mul_i32};
use crate::util::{answers_match, validate_input};

verus! {

#[derive(Clone, Debug, PartialEq)]
pub struct MathQuestion {
    first_number: i32,
    second_number: i32,
    operation: Subject,
    answer_text: String,
}

/// The result for the supported subjects; anything else answers zero.
pub open spec fn math_value(a: int, b: int, op: Subject) -> int {
    match op {
        Subject::Addition => a + b,
        Subject::Subtraction => a - b,
        Subject::Multiplication => a * b,
        _ => 0,
    }
}

/// The prompt text for the supported subjects.
pub open spec fn math_prompt(a: int, b: int, op: Subject) -> Seq<char> {
    match op {
        Subject::Addition => "What is "@ + int_string(a) + " + "@ + int_string(b) + "?"@,
        Subject::Subtraction => "What is "@ + int_string(a) + " - "@ + int_string(b) + "?"@,
        Subject::Multiplication => "What is "@ + int_string(a) + " × "@ + int_string(b) + "?"@,
        _ => "Not applicable"@,
    }
}

impl MathQuestion {
    pub closed spec fn spec_first(self) -> int {
        self.first_number as int
    }

    pub closed spec fn spec_second(self) -> int {
        self.second_number as int
    }

    pub closed spec fn spec_op(self) -> Subject {
        self.operation
    }

    pub closed spec fn spec_answer(self) -> Seq<char> {
        self.answer_text@
    }

    pub fn new(first: i32, second: i32, operation: Subject) -> (q: Self)
        ensures
            q.spec_first() == first,
            q.spec_second() == second,
            q.spec_op() == operation,
            q.spec_answer() == int_string(math_value(first as int, second as int, operation)),
    {
        let result: i64 = match operation {
            Subject::Addition => first as i64 + second as i64,
            Subject::Subtraction => first as i64 - second as i64,
            Subject::Multiplication => mul_i32(first, second),
            _ => 0,
        };
        MathQuestion {
            first_number: first,
            second_number: second,
            operation,
            answer_text: i64_string(result),
        }
    }

    pub fn random(operation: Subject) -> (q: Self)
        ensures
            q.spec_op() == operation,
            q.spec_answer() == int_string(
                math_value(q.spec_first(), q.spec_second(), operation),
            ),
    {
        match operation {
            Subject::Addition => {
                let a = rand_i64(1, 3) as i32;
                let b = rand_i64(1, 3) as i32;
                Self::new(a, b, operation)
            },
            Subject::Subtraction => {
                let b = rand_i64(1, 3) as i32;
                let a = rand_i64(b as i64, 3) as i32;
                Self::new(a, b, operation)
            },
            Subject::Multiplication => {
                let a = rand_i64(1, 2) as i32;
                let b = rand_i64(1, 2) as i32;
                Self::new(a, b, operation)
            },
            _ => Self::new(0, 0, operation),
        }
    }
}

impl Question for MathQuestion {
    fn prompt(&self) -> (r: String)
        ensures
            r@ == math_prompt(self.spec_first(), self.spec_second(), self.spec_op()),
    {
        let is_supported = match self.operation {
            Subject::Addition => true,
            Subject::Subtraction => true,
            Subject::Multiplication => true,
            _ => false,
        };
        if !is_supported {
            let s = String::from_str("Not applicable");
            return s;
        }
        let mut s = String::from_str("What is ");
        let a = i64_string(self.first_number as i64);
        s.append(a.as_str());
        let mid = match self.operation {
            Subject::Addition => String::from_str(" + "),
            Subject::Subtraction => String::from_str(" - "),
            _ => String::from_str(" × "),
        };
        s.append(mid.as_str());
        let b = i64_string(self.second_number as i64);
        s.append(b.as_str());
        let tail = String::from_str("?");
        s.append(tail.as_str());
        proof {
            assert(s@ =~= math_prompt(self.spec_first(), self.spec_second(), self.spec_op()));
        }
        s
    }

    fn answer(&self) -> (r: &str)
        ensures
            r@ == self.spec_answer(),
    {
        self.answer_text.as_str()
    }

    fn check_answer(&self, answer: &str) -> (r: bool)
        ensures
            r == answers_match(self.spec_answer(), answer@),
    {
        validate_input(self.answer_text.as_str(), answer)
    }

    fn display(&self) -> (r: String)
        ensures
            r@ == math_prompt(self.spec_first(), self.spec_second(), self.spec_op()),
    {
        self.prompt()
    }
}

} // verus!
