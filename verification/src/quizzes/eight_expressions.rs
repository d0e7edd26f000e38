//! Evaluate a two-term linear expression at given values.

use vstd::prelude::*;
use crate::quiz::Question;
use crate::rng::rand_i64;
use crate::text::{i64_string, int_string};
use crate::util::{answers_match, validate_input};

verus! {

#[derive(Clone, Debug, PartialEq)]
pub struct EightExpressionQuestion {
    x_factor: i32,
    y_factor: i32,
    x_value: i32,
    y_value: i32,
    sign: bool,
    answer: String,
}

/// The value of the expression: `xf*x + yf*y` or `xf*x - yf*y`.
pub open spec fn expression_value(xf: int, yf: int, x: int, y: int, sign: bool) -> int {
    if sign {
        x * xf + y * yf
    } else {
        x * xf - y * yf
    }
}

/// The prompt text posing the expression.
pub open spec fn eight_expression_prompt(xf: int, yf: int, x: int, y: int, sign: bool) -> Seq<char> {
    "What is the result of: "@ + int_string(xf) + "x "@ + (if sign {
        "+"@
    } else {
        "-"@
    }) + " "@ + int_string(yf) + "y, where x="@ + int_string(x) + " and y="@ + int_string(y)
        + "?"@
}

impl EightExpressionQuestion {
    pub closed spec fn spec_x_factor(self) -> int {
        self.x_factor as int
    }

    pub closed spec fn spec_y_factor(self) -> int {
        self.y_factor as int
    }

    pub closed spec fn spec_x_value(self) -> int {
        self.x_value as int
    }

    pub closed spec fn spec_y_value(self) -> int {
        self.y_value as int
    }

    pub closed spec fn spec_sign(self) -> bool {
        self.sign
    }

    pub closed spec fn spec_answer(self) -> Seq<char> {
        self.answer@
    }

    pub fn new(x_factor: i32, y_factor: i32, x_value: i32, y_value: i32, sign: bool) -> (q: Self)
        ensures
            q.spec_x_factor() == x_factor,
            q.spec_y_factor() == y_factor,
            q.spec_x_value() == x_value,
            q.spec_y_value() == y_value,
            q.spec_sign() == sign,
            q.spec_answer() == int_string(
                expression_value(
                    x_factor as int,
                    y_factor as int,
                    x_value as int,
                    y_value as int,
                    sign,
                ),
            ),
    {
        let xt = crate::text::mul_i32(x_value, x_factor);
        let yt = crate::text::mul_i32(y_value, y_factor);
        let a: i128 = if sign {
            xt as i128 + yt as i128
        } else {
            xt as i128 - yt as i128
        };
        EightExpressionQuestion {
            x_factor,
            y_factor,
            x_value,
            y_value,
            sign,
            answer: crate::text::i128_string(a),
        }
    }

    pub fn random() -> (q: Self)
        ensures
            4 <= q.spec_x_factor() < 6,
            4 <= q.spec_y_factor() < 6,
            0 <= q.spec_x_value() < 20,
            0 <= q.spec_y_value() < 20,
            q.spec_answer() == int_string(
                expression_value(
                    q.spec_x_factor(),
                    q.spec_y_factor(),
                    q.spec_x_value(),
                    q.spec_y_value(),
                    q.spec_sign(),
                ),
            ),
    {
        let xf = rand_i64(4, 6) as i32;
        let yf = rand_i64(4, 6) as i32;
        let x = rand_i64(0, 20) as i32;
        let y = rand_i64(0, 20) as i32;
        let sign = rand_i64(0, 2) == 1;
        Self::new(xf, yf, x, y, sign)
    }
}

impl Question for EightExpressionQuestion {
    fn prompt(&self) -> (r: String)
        ensures
            r@ == eight_expression_prompt(
                self.spec_x_factor(),
                self.spec_y_factor(),
                self.spec_x_value(),
                self.spec_y_value(),
                self.spec_sign(),
            ),
    {
        let mut s = String::from_str("What is the result of: ");
        let xf = i64_string(self.x_factor as i64);
        s.append(xf.as_str());
        let p1 = String::from_str("x ");
        s.append(p1.as_str());
        let sg = if self.sign {
            String::from_str("+")
        } else {
            String::from_str("-")
        };
        s.append(sg.as_str());
        let p2 = String::from_str(" ");
        s.append(p2.as_str());
        let yf = i64_string(self.y_factor as i64);
        s.append(yf.as_str());
        let p3 = String::from_str("y, where x=");
        s.append(p3.as_str());
        let xv = i64_string(self.x_value as i64);
        s.append(xv.as_str());
        let p4 = String::from_str(" and y=");
        s.append(p4.as_str());
        let yv = i64_string(self.y_value as i64);
        s.append(yv.as_str());
        let p5 = String::from_str("?");
        s.append(p5.as_str());
        proof {
            assert(s@ =~= eight_expression_prompt(
                self.spec_x_factor(),
                self.spec_y_factor(),
                self.spec_x_value(),
                self.spec_y_value(),
                self.spec_sign(),
            ));
        }
        s
    }

    fn answer(&self) -> (r: &str)
        ensures
            r@ == self.spec_answer(),
    {
        self.answer.as_str()
    }

    fn check_answer(&self, answer: &str) -> (r: bool)
        ensures
            r == answers_match(self.spec_answer(), answer@),
    {
        validate_input(self.answer.as_str(), answer)
    }

    fn display(&self) -> (r: String)
        ensures
            r@ == eight_expression_prompt(
                self.spec_x_factor(),
                self.spec_y_factor(),
                self.spec_x_value(),
                self.spec_y_value(),
                self.spec_sign(),
            ),
    {
        self.prompt()
    }
}

} // verus!
