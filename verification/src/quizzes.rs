//! The question generators, one module per course.

pub mod addition_1_10;
pub mod area;
pub mod average;
pub mod circumference;
pub mod clock_reading;
pub mod division_1_10;
pub mod eight_expressions;
pub mod expressions;
pub mod first_degree_derivative;
pub mod first_order_equation;
pub mod fraction_to_degree;
pub mod generic_math;
pub mod median;
pub mod negative_values;
pub mod percent_change;
pub mod seven_percent_change;
pub mod roman_numerals;
pub mod six_average;
pub mod six_median;
pub mod multiplication_1_10;
pub mod subtraction_1_10;
