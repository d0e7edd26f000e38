//! Solve a first-order equation `ax + c = b` for x.

use vstd::prelude::*;
use crate::quiz::Question;
use crate::rng::rand_i64;
use crate::text::{hundredths_string, int_string, round_away};
use crate::util::{check_equation_answer, equation_answer_matches};

verus! {

#[derive(Clone, Debug, PartialEq)]
pub struct FirstOrderEquationQuestion {
    coefficient: i32,
    constant_left: i32,
    constant_right: i32,
    operation: char,
    answer_text: String,
}

/// The numerator the unknown solves to: what is left of the right-hand
/// side once the constant moves over.
pub open spec fn equation_numerator(cl: int, cr: int, op: char) -> int {
    if op == '+' {
        cr - cl
    } else {
        cr + cl
    }
}

/// The answer text: the exact quotient when it is whole, otherwise the
/// quotient to two decimal places, ties away from zero.
pub open spec fn equation_answer(coef: int, cl: int, cr: int, op: char) -> Seq<char> {
    let num = equation_numerator(cl, cr, op);
    let neg = (num < 0) != (coef < 0);
    let nm = if num < 0 {
        -num
    } else {
        num
    };
    let cm = if coef < 0 {
        -coef
    } else {
        coef
    };
    if nm % cm == 0 {
        int_string(
            if neg {
                -(nm / cm)
            } else {
                nm / cm
            },
        )
    } else {
        hundredths_string(
            if neg {
                -round_away(100 * nm, cm)
            } else {
                round_away(100 * nm, cm)
            },
        )
    }
}

/// The prompt text posing the equation.
pub open spec fn equation_prompt(coef: int, cl: int, cr: int, op: char) -> Seq<char> {
    "Solve for x: "@ + int_string(coef) + "x "@ + (if op == '+' {
        "+"@
    } else {
        "-"@
    }) + " "@ + int_string(cl) + " = "@ + int_string(cr)
}

impl FirstOrderEquationQuestion {
    pub closed spec fn spec_coefficient(self) -> int {
        self.coefficient as int
    }

    pub closed spec fn spec_constant_left(self) -> int {
        self.constant_left as int
    }

    pub closed spec fn spec_constant_right(self) -> int {
        self.constant_right as int
    }

    pub closed spec fn spec_op(self) -> char {
        self.operation
    }

    pub closed spec fn spec_answer(self) -> Seq<char> {
        self.answer_text@
    }

    pub fn new(coefficient: i32, constant_left: i32, constant_right: i32, operation: char) -> (q:
        Self)
        requires
            coefficient != 0,
            operation == '+' || operation == '-',
        ensures
            q.spec_coefficient() == coefficient,
            q.spec_constant_left() == constant_left,
            q.spec_constant_right() == constant_right,
            q.spec_op() == operation,
            q.spec_answer() == equation_answer(
                coefficient as int,
                constant_left as int,
                constant_right as int,
                operation,
            ),
    {
        let num: i64 = if operation == '+' {
            constant_right as i64 - constant_left as i64
        } else {
            constant_right as i64 + constant_left as i64
        };
        let neg = (num < 0) != (coefficient < 0);
        let nm: i64 = if num < 0 {
            -num
        } else {
            num
        };
        let cm: i64 = if coefficient < 0 {
            -(coefficient as i64)
        } else {
            coefficient as i64
        };
        let answer_text = if nm % cm == 0 {
            let w = nm / cm;
            let v: i64 = if neg {
                -w
            } else {
                w
            };
            crate::text::i64_string(v)
        } else {
            let h = crate::text::round_away_i128(100 * nm as i128, cm as i128);
            proof {
                assert(round_away(100 * nm as int, cm as int) >= 0);
            }
            let v: i128 = if neg {
                -h
            } else {
                h
            };
            crate::text::hundredths_str(v)
        };
        FirstOrderEquationQuestion {
            coefficient,
            constant_left,
            constant_right,
            operation,
            answer_text,
        }
    }

    pub fn random() -> (q: Self)
        ensures
            1 <= q.spec_coefficient() < 10,
            1 <= q.spec_constant_left() < 15,
            q.spec_op() == '+' || q.spec_op() == '-',
            q.spec_answer() == equation_answer(
                q.spec_coefficient(),
                q.spec_constant_left(),
                q.spec_constant_right(),
                q.spec_op(),
            ),
    {
        let coefficient = rand_i64(1, 10) as i32;
        let answer = rand_i64(1, 10) as i32;
        let plus = rand_i64(0, 2) == 0;
        let constant_left = rand_i64(1, 15) as i32;
        let prod = crate::text::mul_i32(coefficient, answer);
        proof {
            assert(1 <= coefficient as int * answer as int <= 81) by (nonlinear_arith)
                requires
                    1 <= (coefficient as int) && (coefficient as int) < 10,
                    1 <= (answer as int) && (answer as int) < 10,
            ;
        }
        if plus {
            let constant_right = (prod + constant_left as i64) as i32;
            Self::new(coefficient, constant_left, constant_right, '+')
        } else {
            let constant_right = (prod - constant_left as i64) as i32;
            Self::new(coefficient, constant_left, constant_right, '-')
        }
    }
}

impl Question for FirstOrderEquationQuestion {
    fn prompt(&self) -> (r: String)
        ensures
            r@ == equation_prompt(
                self.spec_coefficient(),
                self.spec_constant_left(),
                self.spec_constant_right(),
                self.spec_op(),
            ),
    {
        let mut s = String::from_str("Solve for x: ");
        let c = crate::text::i64_string(self.coefficient as i64);
        s.append(c.as_str());
        let p1 = String::from_str("x ");
        s.append(p1.as_str());
        let op = if self.operation == '+' {
            String::from_str("+")
        } else {
            String::from_str("-")
        };
        s.append(op.as_str());
        let p2 = String::from_str(" ");
        s.append(p2.as_str());
        let cl = crate::text::i64_string(self.constant_left as i64);
        s.append(cl.as_str());
        let p3 = String::from_str(" = ");
        s.append(p3.as_str());
        let cr = crate::text::i64_string(self.constant_right as i64);
        s.append(cr.as_str());
        proof {
            assert(s@ =~= equation_prompt(
                self.spec_coefficient(),
                self.spec_constant_left(),
                self.spec_constant_right(),
                self.spec_op(),
            ));
        }
        s
    }

    fn answer(&self) -> (r: &str)
        ensures
            r@ == self.spec_answer(),
    {
        self.answer_text.as_str()
    }

    fn check_answer(&self, answer: &str) -> (r: bool)
        ensures
            r == equation_answer_matches(self.spec_answer(), answer@),
    {
        check_equation_answer(self.answer_text.as_str(), answer)
    }

    fn display(&self) -> (r: String)
        ensures
            r@ == equation_prompt(
                self.spec_coefficient(),
                self.spec_constant_left(),
                self.spec_constant_right(),
                self.spec_op(),
            ),
    {
        self.prompt()
    }
}

} // verus!
