//! Compute the area of a shape; circle areas are rounded to the nearest
//! whole unit using the 53-bit binary approximation of pi that double
//! arithmetic works with.

use vstd::prelude::*;
use crate::quiz::Question;
use crate::rng::rand_i64;
use crate::text::{dec_digits, int_string, mul_u32, u128_string};
use crate::util::{answers_match, validate_input};

verus! {

#[derive(Clone, Debug, PartialEq)]
pub enum ShapeType {
    Square,
    Rectangle,
    Triangle,
    Circle,
}

#[derive(Clone, Debug, PartialEq)]
pub enum ShapeDimensions {
    Square { side: u32 },
    Rectangle { length: u32, width: u32 },
    Triangle { base: u32, height: u32 },
    Circle { radius: u32 },
}

impl ShapeType {
    /// The Swedish label of the shape.
    pub fn label(&self) -> (r: String)
        ensures
            r@ == shape_label(*self),
    {
        let r = match self {
            ShapeType::Square => String::from_str("kvadrat"),
            ShapeType::Rectangle => String::from_str("rektangel"),
            ShapeType::Triangle => String::from_str("triangel"),
            ShapeType::Circle => String::from_str("cirkel"),
        };
        r
    }
}

pub open spec fn shape_label(t: ShapeType) -> Seq<char> {
    match t {
        ShapeType::Square => "kvadrat"@,
        ShapeType::Rectangle => "rektangel"@,
        ShapeType::Triangle => "triangel"@,
        ShapeType::Circle => "cirkel"@,
    }
}

/// The numerator of pi as the binary64 value 884279719003555 / 2^48.
pub open spec fn pi_num() -> int {
    884279719003555
}

/// A circle's area in whole units: `pi * r * r`, rounded to nearest.
pub open spec fn circle_area_units(r: int) -> int {
    (r * r * pi_num() + 0x800000000000) / 0x1000000000000
}

#[derive(Clone, Debug, PartialEq)]
pub struct AreaQuestion {
    shape_type: ShapeType,
    dimensions: ShapeDimensions,
    unit: String,
    answer_text: String,
}

impl AreaQuestion {
    pub closed spec fn spec_shape(self) -> ShapeType {
        self.shape_type
    }

    pub closed spec fn spec_unit(self) -> Seq<char> {
        self.unit@
    }

    pub closed spec fn spec_answer(self) -> Seq<char> {
        self.answer_text@
    }

    pub fn new_square(side: u32, unit: &str) -> (q: Self)
        ensures
            q.spec_shape() == ShapeType::Square,
            q.spec_shape_dims() == (ShapeDimensions::Square { side }),
            q.spec_unit() == unit@,
            q.spec_answer() == dec_digits((side * side) as nat),
    {
        let area = mul_u32(side, side);
        AreaQuestion {
            shape_type: ShapeType::Square,
            dimensions: ShapeDimensions::Square { side },
            unit: unit.to_owned(),
            answer_text: u128_string(area as u128),
        }
    }

    pub fn new_rectangle(length: u32, width: u32, unit: &str) -> (q: Self)
        ensures
            q.spec_shape() == ShapeType::Rectangle,
            q.spec_shape_dims() == (ShapeDimensions::Rectangle { length, width }),
            q.spec_unit() == unit@,
            q.spec_answer() == dec_digits((length * width) as nat),
    {
        let area = mul_u32(length, width);
        AreaQuestion {
            shape_type: ShapeType::Rectangle,
            dimensions: ShapeDimensions::Rectangle { length, width },
            unit: unit.to_owned(),
            answer_text: u128_string(area as u128),
        }
    }

    pub fn new_triangle(base: u32, height: u32, unit: &str) -> (q: Self)
        ensures
            q.spec_shape() == ShapeType::Triangle,
            q.spec_shape_dims() == (ShapeDimensions::Triangle { base, height }),
            q.spec_unit() == unit@,
            q.spec_answer() == dec_digits(((base * height) / 2) as nat),
    {
        let area = mul_u32(base, height) / 2;
        AreaQuestion {
            shape_type: ShapeType::Triangle,
            dimensions: ShapeDimensions::Triangle { base, height },
            unit: unit.to_owned(),
            answer_text: u128_string(area as u128),
        }
    }

    pub fn new_circle(radius: u32, unit: &str) -> (q: Self)
        ensures
            q.spec_shape() == ShapeType::Circle,
            q.spec_shape_dims() == (ShapeDimensions::Circle { radius }),
            q.spec_unit() == unit@,
            q.spec_answer() == dec_digits(circle_area_units(radius as int) as nat),
    {
        let rr = mul_u32(radius, radius);
        proof {
            vstd::arithmetic::mul::lemma_mul_upper_bound(
                rr as int,
                0xffffffffffffffff_int,
                pi_num(),
                pi_num(),
            );
        }
        let prod: u128 = rr as u128 * 884279719003555u128;
        let area: u128 = (prod + 0x800000000000u128) / 0x1000000000000u128;
        AreaQuestion {
            shape_type: ShapeType::Circle,
            dimensions: ShapeDimensions::Circle { radius },
            unit: unit.to_owned(),
            answer_text: u128_string(area),
        }
    }

    pub fn random() -> (q: Self)
        ensures
            q.spec_unit() == "cm"@ || q.spec_unit() == "m"@,
            match q.spec_shape_dims() {
                ShapeDimensions::Square { side } => 1 <= side < 20 && q.spec_answer()
                    == dec_digits((side * side) as nat),
                ShapeDimensions::Rectangle { length, width } => 1 <= width < length < 20
                    && q.spec_answer() == dec_digits((length * width) as nat),
                ShapeDimensions::Triangle { base, height } => 2 <= base < 20 && 2 <= height < 20
                    && q.spec_answer() == dec_digits(((base * height) / 2) as nat),
                ShapeDimensions::Circle { radius } => 1 <= radius < 15 && q.spec_answer()
                    == dec_digits(circle_area_units(radius as int) as nat),
            },
    {
        let pick_unit = rand_i64(0, 2);
        let shape = rand_i64(0, 4);
        if pick_unit == 0 {
            let unit = "cm";
            proof {
                reveal_strlit("cm");
            }
            if shape == 0 {
                Self::new_square(rand_i64(1, 20) as u32, unit)
            } else if shape == 1 {
                let length = rand_i64(2, 20);
                let width = rand_i64(1, length);
                Self::new_rectangle(length as u32, width as u32, unit)
            } else if shape == 2 {
                Self::new_triangle(rand_i64(2, 20) as u32, rand_i64(2, 20) as u32, unit)
            } else {
                Self::new_circle(rand_i64(1, 15) as u32, unit)
            }
        } else {
            let unit = "m";
            proof {
                reveal_strlit("m");
            }
            if shape == 0 {
                Self::new_square(rand_i64(1, 20) as u32, unit)
            } else if shape == 1 {
                let length = rand_i64(2, 20);
                let width = rand_i64(1, length);
                Self::new_rectangle(length as u32, width as u32, unit)
            } else if shape == 2 {
                Self::new_triangle(rand_i64(2, 20) as u32, rand_i64(2, 20) as u32, unit)
            } else {
                Self::new_circle(rand_i64(1, 15) as u32, unit)
            }
        }
    }
}

/// The prompt text per shape.
pub open spec fn area_prompt(q: AreaQuestion) -> Seq<char> {
    area_prompt_of(q.spec_shape_dims(), q.spec_unit())
}

impl AreaQuestion {
    pub closed spec fn spec_shape_dims(self) -> ShapeDimensions {
        self.dimensions
    }
}

pub open spec fn area_prompt_of(d: ShapeDimensions, unit: Seq<char>) -> Seq<char> {
    match d {
        ShapeDimensions::Square { side } => "Beräkna area av en kvadrat med sidan: "@
            + int_string(side as int) + unit + "?"@,
        ShapeDimensions::Rectangle { length, width } => "Beräkna area av en rektangel sidorna "@
            + int_string(length as int) + unit + " och "@ + int_string(width as int) + unit
            + "?"@,
        ShapeDimensions::Triangle { base, height } => "Beräkna area av en triangel med bas "@
            + int_string(base as int) + unit + " och höjd "@ + int_string(height as int) + unit
            + "?"@,
        ShapeDimensions::Circle { radius } => "Beräkna area av en cirkel med radien "@
            + int_string(radius as int) + unit + "? (Närmaste heltal)"@,
    }
}

impl Question for AreaQuestion {
    fn prompt(&self) -> (r: String)
        ensures
            r@ == area_prompt(*self),
    {
        let mut s: String;
        match &self.dimensions {
            ShapeDimensions::Square { side } => {
                s = String::from_str("Beräkna area av en kvadrat med sidan: ");
                let a = u128_string(*side as u128);
                s.append(a.as_str());
                s.append(self.unit.as_str());
                let tail = String::from_str("?");
                s.append(tail.as_str());
            },
            ShapeDimensions::Rectangle { length, width } => {
                s = String::from_str("Beräkna area av en rektangel sidorna ");
                let a = u128_string(*length as u128);
                s.append(a.as_str());
                s.append(self.unit.as_str());
                let mid = String::from_str(" och ");
                s.append(mid.as_str());
                let b = u128_string(*width as u128);
                s.append(b.as_str());
                s.append(self.unit.as_str());
                let tail = String::from_str("?");
                s.append(tail.as_str());
            },
            ShapeDimensions::Triangle { base, height } => {
                s = String::from_str("Beräkna area av en triangel med bas ");
                let a = u128_string(*base as u128);
                s.append(a.as_str());
                s.append(self.unit.as_str());
                let mid = String::from_str(" och höjd ");
                s.append(mid.as_str());
                let b = u128_string(*height as u128);
                s.append(b.as_str());
                s.append(self.unit.as_str());
                let tail = String::from_str("?");
                s.append(tail.as_str());
            },
            ShapeDimensions::Circle { radius } => {
                s = String::from_str("Beräkna area av en cirkel med radien ");
                let a = u128_string(*radius as u128);
                s.append(a.as_str());
                s.append(self.unit.as_str());
                let tail = String::from_str("? (Närmaste heltal)");
                s.append(tail.as_str());
            },
        }
        proof {
            assert(s@ =~= area_prompt(*self));
        }
        s
    }

    fn answer(&self) -> (r: &str)
        ensures
            r@ == self.spec_answer(),
    {
        self.answer_text.as_str()
    }

    fn check_answer(&self, answer: &str) -> (r: bool)
        ensures
            r == answers_match(self.spec_answer(), answer@),
    {
        validate_input(self.answer_text.as_str(), answer)
    }

    fn display(&self) -> (r: String)
        ensures
            r@ == area_prompt(*self),
    {
        self.prompt()
    }
}

} // verus!
