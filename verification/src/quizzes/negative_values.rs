//! Addition and subtraction drills that cross zero.

use vstd::prelude::*;
use crate::quiz::Question;
use crate::rng::rand_i64;
use crate::text::{i64_string, int_string};
use crate::util::{answers_match, validate_input};

verus! {

#[derive(Clone, Debug, PartialEq)]
pub struct NegativeValuesQuestion {
    first_number: i32,
    second_number: i32,
    operation: char,
    answer_text: String,
}

/// The value the question asks for.
pub open spec fn signed_op_value(a: int, b: int, op: char) -> int {
    if op == '+' {
        a + b
    } else {
        a - b
    }
}

/// The prompt text: a negative second operand is parenthesized.
pub open spec fn negative_values_prompt(a: int, b: int, op: char) -> Seq<char> {
    let ops = if op == '+' {
        "+"@
    } else {
        "-"@
    };
    if b < 0 {
        "Beräkna "@ + int_string(a) + " "@ + ops + " ("@ + int_string(b) + ")?"@
    } else {
        "Beräkna "@ + int_string(a) + " "@ + ops + " "@ + int_string(b) + "?"@
    }
}

impl NegativeValuesQuestion {
    pub closed spec fn spec_first(self) -> int {
        self.first_number as int
    }

    pub closed spec fn spec_second(self) -> int {
        self.second_number as int
    }

    pub closed spec fn spec_op(self) -> char {
        self.operation
    }

    pub closed spec fn spec_answer(self) -> Seq<char> {
        self.answer_text@
    }

    pub fn new(first: i32, second: i32, operation: char) -> (q: Self)
        requires
            operation == '+' || operation == '-',
        ensures
            q.spec_first() == first,
            q.spec_second() == second,
            q.spec_op() == operation,
            q.spec_answer() == int_string(signed_op_value(first as int, second as int, operation)),
    {
        let result: i64 = if operation == '+' {
            first as i64 + second as i64
        } else {
            first as i64 - second as i64
        };
        NegativeValuesQuestion {
            first_number: first,
            second_number: second,
            operation,
            answer_text: i64_string(result),
        }
    }

    pub fn random() -> (q: Self)
        ensures
            q.spec_op() == '+' || q.spec_op() == '-',
            -10 <= q.spec_first() <= 10,
            -10 <= q.spec_second() <= 10,
            q.spec_answer() == int_string(
                signed_op_value(q.spec_first(), q.spec_second(), q.spec_op()),
            ),
    {
        let plus = rand_i64(0, 2) == 1;
        let first: i32;
        let second: i32;
        if plus {
            let scenario = rand_i64(0, 3);
            if scenario == 0 {
                first = rand_i64(1, 11) as i32;
                second = rand_i64(-10, 0) as i32;
            } else if scenario == 1 {
                first = rand_i64(-10, 0) as i32;
                second = rand_i64(1, 11) as i32;
            } else {
                first = rand_i64(-10, 0) as i32;
                second = rand_i64(-10, 0) as i32;
            }
            Self::new(first, second, '+')
        } else {
            let scenario = rand_i64(0, 4);
            if scenario == 0 {
                first = rand_i64(1, 11) as i32;
                second = rand_i64(-10, 0) as i32;
            } else if scenario == 1 {
                first = rand_i64(-10, 0) as i32;
                second = rand_i64(1, 11) as i32;
            } else if scenario == 2 {
                first = rand_i64(-10, 0) as i32;
                second = rand_i64(-10, 0) as i32;
            } else {
                second = rand_i64(2, 11) as i32;
                first = rand_i64(1, second as i64) as i32;
            }
            Self::new(first, second, '-')
        }
    }
}

impl Question for NegativeValuesQuestion {
    fn prompt(&self) -> (r: String)
        ensures
            r@ == negative_values_prompt(self.spec_first(), self.spec_second(), self.spec_op()),
    {
        let mut s = String::from_str("Beräkna ");
        let a = i64_string(self.first_number as i64);
        s.append(a.as_str());
        let sp = String::from_str(" ");
        s.append(sp.as_str());
        let ops = if self.operation == '+' {
            String::from_str("+")
        } else {
            String::from_str("-")
        };
        s.append(ops.as_str());
        if self.second_number < 0 {
            let open_p = String::from_str(" (");
            s.append(open_p.as_str());
            let b = i64_string(self.second_number as i64);
            s.append(b.as_str());
            let close_p = String::from_str(")?");
            s.append(close_p.as_str());
        } else {
            let sp2 = String::from_str(" ");
            s.append(sp2.as_str());
            let b = i64_string(self.second_number as i64);
            s.append(b.as_str());
            let tail = String::from_str("?");
            s.append(tail.as_str());
        }
        proof {
            assert(s@ =~= negative_values_prompt(
                self.spec_first(),
                self.spec_second(),
                self.spec_op(),
            ));
        }
        s
    }

    fn answer(&self) -> (r: &str)
        ensures
            r@ == self.spec_answer(),
    {
        self.answer_text.as_str()
    }

    fn check_answer(&self, answer: &str) -> (r: bool)
        ensures
            r == answers_match(self.spec_answer(), answer@),
    {
        validate_input(self.answer_text.as_str(), answer)
    }

    fn display(&self) -> (r: String)
        ensures
            r@ == negative_values_prompt(self.spec_first(), self.spec_second(), self.spec_op()),
    {
        self.prompt()
    }
}

} // verus!
