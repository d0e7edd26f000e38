//! Compute the circumference of a shape; circles are rounded to the
//! nearest whole unit using the binary64 approximation of pi.

use vstd::prelude::*;
use crate::quiz::Question;
use crate::quizzes::area::{pi_num, ShapeType};
use crate::rng::rand_i64;
use crate::text::{dec_digits, int_string, u128_string};
use crate::util::{answers_match, validate_input};

verus! {

#[derive(Clone, Debug, PartialEq)]
pub enum ShapeDimensions {
    Square { side: u32 },
    Rectangle { length: u32, width: u32 },
    Triangle { side_a: u32, side_b: u32, side_c: u32 },
    Circle { radius: u32 },
}

/// A circle's circumference in whole units: `2 * pi * r`, rounded.
pub open spec fn circle_circumference_units(r: int) -> int {
    (r * pi_num() + 0x400000000000) / 0x800000000000
}

#[derive(Clone, Debug, PartialEq)]
pub struct CircumferenceQuestion {
    shape_type: ShapeType,
    dimensions: ShapeDimensions,
    unit: String,
    answer_text: String,
}

impl CircumferenceQuestion {
    pub closed spec fn spec_shape(self) -> ShapeType {
        self.shape_type
    }

    pub closed spec fn spec_shape_dims(self) -> ShapeDimensions {
        self.dimensions
    }

    pub closed spec fn spec_unit(self) -> Seq<char> {
        self.unit@
    }

    pub closed spec fn spec_answer(self) -> Seq<char> {
        self.answer_text@
    }

    pub fn new_square(side: u32, unit: &str) -> (q: Self)
        ensures
            q.spec_shape() == ShapeType::Square,
            q.spec_shape_dims() == (ShapeDimensions::Square { side }),
            q.spec_unit() == unit@,
            q.spec_answer() == dec_digits((side * 4) as nat),
    {
        let c = side as u64 * 4;
        CircumferenceQuestion {
            shape_type: ShapeType::Square,
            dimensions: ShapeDimensions::Square { side },
            unit: unit.to_owned(),
            answer_text: u128_string(c as u128),
        }
    }

    pub fn new_rectangle(length: u32, width: u32, unit: &str) -> (q: Self)
        ensures
            q.spec_shape() == ShapeType::Rectangle,
            q.spec_shape_dims() == (ShapeDimensions::Rectangle { length, width }),
            q.spec_unit() == unit@,
            q.spec_answer() == dec_digits((2 * (length + width)) as nat),
    {
        let c = 2 * (length as u64 + width as u64);
        CircumferenceQuestion {
            shape_type: ShapeType::Rectangle,
            dimensions: ShapeDimensions::Rectangle { length, width },
            unit: unit.to_owned(),
            answer_text: u128_string(c as u128),
        }
    }

    pub fn new_triangle(side_a: u32, side_b: u32, side_c: u32, unit: &str) -> (q: Self)
        ensures
            q.spec_shape() == ShapeType::Triangle,
            q.spec_shape_dims() == (ShapeDimensions::Triangle { side_a, side_b, side_c }),
            q.spec_unit() == unit@,
            q.spec_answer() == dec_digits((side_a + side_b + side_c) as nat),
    {
        let c = side_a as u64 + side_b as u64 + side_c as u64;
        CircumferenceQuestion {
            shape_type: ShapeType::Triangle,
            dimensions: ShapeDimensions::Triangle { side_a, side_b, side_c },
            unit: unit.to_owned(),
            answer_text: u128_string(c as u128),
        }
    }

    pub fn new_circle(radius: u32, unit: &str) -> (q: Self)
        ensures
            q.spec_shape() == ShapeType::Circle,
            q.spec_shape_dims() == (ShapeDimensions::Circle { radius }),
            q.spec_unit() == unit@,
            q.spec_answer() == dec_digits(circle_circumference_units(radius as int) as nat),
    {
        proof {
            vstd::arithmetic::mul::lemma_mul_upper_bound(
                radius as int,
                0xffffffff_int,
                pi_num(),
                pi_num(),
            );
        }
        let prod: u128 = radius as u128 * 884279719003555u128;
        let c: u128 = (prod + 0x400000000000u128) / 0x800000000000u128;
        CircumferenceQuestion {
            shape_type: ShapeType::Circle,
            dimensions: ShapeDimensions::Circle { radius },
            unit: unit.to_owned(),
            answer_text: u128_string(c),
        }
    }

    pub fn random() -> (q: Self)
        ensures
            q.spec_unit() == "cm"@ || q.spec_unit() == "m"@,
            match q.spec_shape_dims() {
                ShapeDimensions::Square { side } => 1 <= side < 20 && q.spec_answer()
                    == dec_digits((side * 4) as nat),
                ShapeDimensions::Rectangle { length, width } => 1 <= width < length < 20
                    && q.spec_answer() == dec_digits((2 * (length + width)) as nat),
                ShapeDimensions::Triangle { side_a, side_b, side_c } => 3 <= side_a < 15 && 3
                    <= side_b < 15 && 3 <= side_c < 15 && q.spec_answer() == dec_digits(
                    (side_a + side_b + side_c) as nat,
                ),
                ShapeDimensions::Circle { radius } => 1 <= radius < 15 && q.spec_answer()
                    == dec_digits(circle_circumference_units(radius as int) as nat),
            },
    {
        let pick_unit = rand_i64(0, 2);
        let shape = rand_i64(0, 4);
        if pick_unit == 0 {
            let unit = "cm";
            proof {
                reveal_strlit("cm");
            }
            if shape == 0 {
                Self::new_square(rand_i64(1, 20) as u32, unit)
            } else if shape == 1 {
                let length = rand_i64(2, 20);
                let width = rand_i64(1, length);
                Self::new_rectangle(length as u32, width as u32, unit)
            } else if shape == 2 {
                Self::new_triangle(
                    rand_i64(3, 15) as u32,
                    rand_i64(3, 15) as u32,
                    rand_i64(3, 15) as u32,
                    unit,
                )
            } else {
                Self::new_circle(rand_i64(1, 15) as u32, unit)
            }
        } else {
            let unit = "m";
            proof {
                reveal_strlit("m");
            }
            if shape == 0 {
                Self::new_square(rand_i64(1, 20) as u32, unit)
            } else if shape == 1 {
                let length = rand_i64(2, 20);
                let width = rand_i64(1, length);
                Self::new_rectangle(length as u32, width as u32, unit)
            } else if shape == 2 {
                Self::new_triangle(
                    rand_i64(3, 15) as u32,
                    rand_i64(3, 15) as u32,
                    rand_i64(3, 15) as u32,
                    unit,
                )
            } else {
                Self::new_circle(rand_i64(1, 15) as u32, unit)
            }
        }
    }
}

/// The prompt text per shape.
pub open spec fn circumference_prompt(q: CircumferenceQuestion) -> Seq<char> {
    circumference_prompt_of(q.spec_shape_dims(), q.spec_unit())
}

pub open spec fn circumference_prompt_of(d: ShapeDimensions, unit: Seq<char>) -> Seq<char> {
    match d {
        ShapeDimensions::Square { side } => "Beräkna omkrets av en kvadrat med sidan: "@
            + int_string(side as int) + unit + "?"@,
        ShapeDimensions::Rectangle { length, width } => "Beräkna omkrets av en rektangel sidorna "@
            + int_string(length as int) + unit + " och "@ + int_string(width as int) + unit
            + "?"@,
        ShapeDimensions::Triangle { side_a, side_b, side_c } => "Beräkna omkrets av en triangel med sidorna "@
            + int_string(side_a as int) + unit + ", "@ + int_string(side_b as int) + unit
            + " och "@ + int_string(side_c as int) + unit + "?"@,
        ShapeDimensions::Circle { radius } => "Beräkna omkrets av en cirkel med radien "@
            + int_string(radius as int) + unit + "? (Närmaste heltal)"@,
    }
}

impl Question for CircumferenceQuestion {
    fn prompt(&self) -> (r: String)
        ensures
            r@ == circumference_prompt(*self),
    {
        let mut s: String;
        match &self.dimensions {
            ShapeDimensions::Square { side } => {
                s = String::from_str("Beräkna omkrets av en kvadrat med sidan: ");
                let a = u128_string(*side as u128);
                s.append(a.as_str());
                s.append(self.unit.as_str());
                let tail = String::from_str("?");
                s.append(tail.as_str());
            },
            ShapeDimensions::Rectangle { length, width } => {
                s = String::from_str("Beräkna omkrets av en rektangel sidorna ");
                let a = u128_string(*length as u128);
                s.append(a.as_str());
                s.append(self.unit.as_str());
                let mid = String::from_str(" och ");
                s.append(mid.as_str());
                let b = u128_string(*width as u128);
                s.append(b.as_str());
                s.append(self.unit.as_str());
                let tail = String::from_str("?");
                s.append(tail.as_str());
            },
            ShapeDimensions::Triangle { side_a, side_b, side_c } => {
                s = String::from_str("Beräkna omkrets av en triangel med sidorna ");
                let a = u128_string(*side_a as u128);
                s.append(a.as_str());
                s.append(self.unit.as_str());
                let mid = String::from_str(", ");
                s.append(mid.as_str());
                let b = u128_string(*side_b as u128);
                s.append(b.as_str());
                s.append(self.unit.as_str());
                let mid2 = String::from_str(" och ");
                s.append(mid2.as_str());
                let c = u128_string(*side_c as u128);
                s.append(c.as_str());
                s.append(self.unit.as_str());
                let tail = String::from_str("?");
                s.append(tail.as_str());
            },
            ShapeDimensions::Circle { radius } => {
                s = String::from_str("Beräkna omkrets av en cirkel med radien ");
                let a = u128_string(*radius as u128);
                s.append(a.as_str());
                s.append(self.unit.as_str());
                let tail = String::from_str("? (Närmaste heltal)");
                s.append(tail.as_str());
            },
        }
        proof {
            assert(s@ =~= circumference_prompt(*self));
        }
        s
    }

    fn answer(&self) -> (r: &str)
        ensures
            r@ == self.spec_answer(),
    {
        self.answer_text.as_str()
    }

    fn check_answer(&self, answer: &str) -> (r: bool)
        ensures
            r == answers_match(self.spec_answer(), answer@),
    {
        validate_input(self.answer_text.as_str(), answer)
    }

    fn display(&self) -> (r: String)
        ensures
            r@ == circumference_prompt(*self),
    {
        self.prompt()
    }
}

} // verus!
