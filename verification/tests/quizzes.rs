//! The question generators: exact answers, prompts and answer checking.

use mer_matte::quiz::{MultipleChoiceQuestionProvider, Question, Quiz, Subject};
use mer_matte::quizzes::addition_1_10::AdditionQuestion1_10;
use mer_matte::quizzes::area::AreaQuestion;
use mer_matte::quizzes::average::AverageQuestion;
use mer_matte::quizzes::circumference::CircumferenceQuestion;
use mer_matte::quizzes::clock_reading::ClockReadingQuestion;
use mer_matte::quizzes::division_1_10::DivisionQuestion1_10;
use mer_matte::quizzes::eight_expressions::EightExpressionQuestion;
use mer_matte::quizzes::expressions::ExpressionQuestion;
use mer_matte::quizzes::first_degree_derivative::FirstDegreeDerivativeQuestion;
use mer_matte::quizzes::first_order_equation::FirstOrderEquationQuestion;
use mer_matte::quizzes::fraction_to_degree::FractionToDegree;
use mer_matte::quizzes::generic_math::MathQuestion;
use mer_matte::quizzes::median::MedianQuestion;
use mer_matte::quizzes::multiplication_1_10::MultiplicationQuestion1_10;
use mer_matte::quizzes::negative_values::NegativeValuesQuestion;
use mer_matte::quizzes::percent_change::PercentChangeQuestion;
use mer_matte::quizzes::roman_numerals::{to_roman, RomanNumeralsQuestion};
use mer_matte::quizzes::seven_percent_change::SevenPercentChangeQuestion;
use mer_matte::quizzes::six_average::SixAverageQuestion;
use mer_matte::quizzes::six_median::SixMedianQuestion;
use mer_matte::quizzes::subtraction_1_10::SubtractionQuestion1_10;

#[test]
fn test_random_average_is_integer() {
    for _ in 0..100 {
        let q = AverageQuestion::random();
        println!("Numbers: {:?}, Answer: {}", q.numbers(), q.answer());
        let parsed_answer: i32 = q
            .answer()
            .parse()
            .expect("Answer should be an integer string");
        let sum: i32 = q.numbers().iter().sum();
        let count = q.numbers().len() as i32;
        assert_eq!(parsed_answer, sum / count);
    }
}

#[test]
fn addition_exact() {
    let q = AdditionQuestion1_10::new(2, 3);
    assert_eq!(q.prompt(), "Beräkna 2 + 3?");
    assert_eq!(q.answer(), "5");
    assert!(q.check_answer("5"));
    assert!(q.check_answer("  5 "));
    assert!(!q.check_answer("6"));
    for _ in 0..20 {
        let r = AdditionQuestion1_10::random();
        let v: i32 = r.answer().parse().unwrap();
        assert!(v >= 2 && v <= 18);
    }
}

#[test]
fn subtraction_exact() {
    let q = SubtractionQuestion1_10::new(7, 9);
    assert_eq!(q.prompt(), "Beräkna 7 - 9?");
    assert_eq!(q.answer(), "-2");
    assert!(q.check_answer("-2"));
    for _ in 0..20 {
        let r = SubtractionQuestion1_10::random();
        let v: i32 = r.answer().parse().unwrap();
        assert!(v >= 0);
    }
}

#[test]
fn multiplication_exact() {
    let q = MultiplicationQuestion1_10::new(6, 7);
    assert_eq!(q.prompt(), "Beräkna 6 × 7?");
    assert_eq!(q.answer(), "42");
}

#[test]
fn division_exact() {
    let q = DivisionQuestion1_10::new(7, 2);
    assert_eq!(q.prompt(), "Beräkna 7 / 2?");
    assert_eq!(q.answer(), "3.5");
    assert!(q.check_answer("3.5"));
    let whole = DivisionQuestion1_10::new(8, 4);
    assert_eq!(whole.answer(), "2");
    let third = DivisionQuestion1_10::new(1, 3);
    assert_eq!(third.answer(), "0.3");
}

#[test]
fn expression_exact() {
    let q = ExpressionQuestion::new(4, 5, 2, 3, true);
    assert_eq!(q.answer(), "23");
    assert_eq!(
        q.prompt(),
        "Beräkna uttryckets värde: 4x + 5y, where x=2 and y=3?"
    );
    let q2 = EightExpressionQuestion::new(4, 5, 2, 3, false);
    assert_eq!(q2.answer(), "-7");
    assert_eq!(
        q2.prompt(),
        "What is the result of: 4x - 5y, where x=2 and y=3?"
    );
}

#[test]
fn negative_values_exact() {
    let q = NegativeValuesQuestion::new(5, -3, '+');
    assert_eq!(q.prompt(), "Beräkna 5 + (-3)?");
    assert_eq!(q.answer(), "2");
    let q2 = NegativeValuesQuestion::new(-5, -3, '-');
    assert_eq!(q2.answer(), "-2");
    for _ in 0..20 {
        let r = NegativeValuesQuestion::random();
        let _v: i32 = r.answer().parse().unwrap();
    }
}

#[test]
fn generic_math_exact() {
    let q = MathQuestion::new(2, 3, Subject::Multiplication);
    assert_eq!(q.prompt(), "What is 2 × 3?");
    assert_eq!(q.answer(), "6");
    let q2 = MathQuestion::new(9, 4, Subject::Subtraction);
    assert_eq!(q2.answer(), "5");
    let q3 = MathQuestion::new(1, 1, Subject::Division);
    assert_eq!(q3.prompt(), "Not applicable");
    assert_eq!(q3.answer(), "0");
}

#[test]
fn average_and_median_exact() {
    let avg = AverageQuestion::new(vec![1, 2, 3]);
    assert_eq!(avg.answer(), "2");
    assert_eq!(avg.prompt(), "Beräkna medelvärdet: [1, 2, 3]");
    let frac = AverageQuestion::new(vec![1, 2]);
    assert_eq!(frac.answer(), "1.5");
    let med = MedianQuestion::new(vec![3, 1, 2]);
    assert_eq!(med.answer(), "2");
    assert_eq!(med.prompt(), "Beräkna medianen: [3, 1, 2]");
    let med2 = MedianQuestion::new(vec![4, 1, 2, 3]);
    assert_eq!(med2.answer(), "2.5");
    let s_avg = SixAverageQuestion::new(vec![2, 2, 2, 3]);
    assert_eq!(s_avg.answer(), "2.3");
    assert_eq!(s_avg.prompt(), "What is the average of: [2, 2, 2, 3]");
    let s_med = SixMedianQuestion::new(vec![5, 1, 3]);
    assert_eq!(s_med.answer(), "3");
    for _ in 0..20 {
        let r = MedianQuestion::random();
        let _v: i32 = r.answer().parse().unwrap();
        let r2 = SixMedianQuestion::random();
        let _v2: i32 = r2.answer().parse().unwrap();
    }
}

#[test]
fn area_exact() {
    let sq = AreaQuestion::new_square(3, "cm");
    assert_eq!(sq.answer(), "9");
    assert_eq!(sq.prompt(), "Beräkna area av en kvadrat med sidan: 3cm?");
    let re = AreaQuestion::new_rectangle(4, 5, "m");
    assert_eq!(re.answer(), "20");
    let tr = AreaQuestion::new_triangle(5, 4, "cm");
    assert_eq!(tr.answer(), "10");
    let ci = AreaQuestion::new_circle(10, "cm");
    assert_eq!(ci.answer(), "314");
    let small = AreaQuestion::new_circle(1, "m");
    assert_eq!(small.answer(), "3");
}

#[test]
fn circumference_exact() {
    let sq = CircumferenceQuestion::new_square(3, "cm");
    assert_eq!(sq.answer(), "12");
    let re = CircumferenceQuestion::new_rectangle(4, 5, "m");
    assert_eq!(re.answer(), "18");
    let tr = CircumferenceQuestion::new_triangle(3, 4, 5, "cm");
    assert_eq!(tr.answer(), "12");
    let ci = CircumferenceQuestion::new_circle(7, "cm");
    assert_eq!(ci.answer(), "44");
}

#[test]
fn clock_reading_exact() {
    let midnight = ClockReadingQuestion::new(12, 0, false);
    assert_eq!(midnight.answer(), "00:00");
    assert_eq!(midnight.display_hour(), 12);
    assert!(!midnight.is_afternoon());
    let pm = ClockReadingQuestion::new(1, 5, true);
    assert_eq!(pm.answer(), "13:05");
    assert_eq!(pm.display_hour(), 1);
    assert_eq!(pm.minute(), 5);
    assert!(pm.check_answer("13:05"));
    assert!(pm.check_answer("1305"));
    assert!(!pm.check_answer("13:06"));
    let noon = ClockReadingQuestion::new(12, 30, true);
    assert_eq!(noon.answer(), "12:30");
    for _ in 0..20 {
        let r = ClockReadingQuestion::random();
        assert_eq!(r.minute() % 5, 0);
        let r2 = ClockReadingQuestion::random_any_minute();
        assert!(r2.minute() <= 59);
    }
}

#[test]
fn fraction_to_degree_exact() {
    let q = FractionToDegree::new(1, 4);
    assert_eq!(q.answer(), "90");
    assert_eq!(q.prompt(), "Hur många grader är 1/4-delar av en cirkel?");
    let sevenths = FractionToDegree::new(1, 7);
    assert_eq!(sevenths.answer(), "51.4");
}

#[test]
fn percent_change_exact() {
    let up = PercentChangeQuestion::new(100, 10);
    assert_eq!(up.answer(), "110");
    assert!(up.prompt().contains("Priset höjs med 10%"));
    let down = PercentChangeQuestion::new(100, -10);
    assert_eq!(down.answer(), "90");
    assert!(down.prompt().contains("Priset sänks med 10%"));
    let fractional = PercentChangeQuestion::new(25, 10);
    assert_eq!(fractional.answer(), "27.5");
    let en = SevenPercentChangeQuestion::new(200, 50);
    assert_eq!(en.answer(), "300");
    assert!(en.prompt().contains("It increases by 50%"));
    let still = SevenPercentChangeQuestion::new(200, 0);
    assert_eq!(still.prompt(), "What is the current price?");
}

#[test]
fn first_order_equation_exact() {
    let q = FirstOrderEquationQuestion::new(2, 3, 7, '+');
    assert_eq!(q.prompt(), "Solve for x: 2x + 3 = 7");
    assert_eq!(q.answer(), "2");
    assert!(q.check_answer("2"));
    assert!(q.check_answer("2.005"));
    assert!(!q.check_answer("2.2"));
    let thirds = FirstOrderEquationQuestion::new(3, 1, 3, '-');
    assert_eq!(thirds.answer(), "1.33");
    assert!(thirds.check_answer("1.33"));
    for _ in 0..20 {
        let r = FirstOrderEquationQuestion::random();
        let v: f64 = r.answer().parse().unwrap();
        assert_eq!(v.fract(), 0.0);
    }
}

#[test]
fn derivative_exact() {
    let q = FirstDegreeDerivativeQuestion::new(vec![(3, 2), (2, 1)], 5);
    assert_eq!(q.format_original(), "3x^2 + 2x + 5");
    assert_eq!(q.answer(), "6x + 2");
    assert_eq!(q.prompt(), "Beräkna f'(x): f(x) = 3x^2 + 2x + 5");
    assert!(q.check_answer("6x + 2"));
    assert!(q.check_answer("6X+2"));
    assert!(!q.check_answer("6x + 3"));
    let lead_neg = FirstDegreeDerivativeQuestion::new(vec![(-1, 2)], 0);
    assert_eq!(lead_neg.format_original(), "-x^2");
    assert_eq!(lead_neg.answer(), "-2x");
    let constant_only = FirstDegreeDerivativeQuestion::new(vec![(2, 1)], -4);
    assert_eq!(constant_only.format_original(), "2x - 4");
    assert_eq!(constant_only.answer(), "2");
}

#[test]
fn roman_numerals_exact() {
    assert_eq!(to_roman(4), "IV");
    assert_eq!(to_roman(9), "IX");
    assert_eq!(to_roman(14), "XIV");
    assert_eq!(to_roman(90), "XC");
    assert_eq!(to_roman(2024), "MMXXIV");
    for _ in 0..20 {
        let q = RomanNumeralsQuestion::random();
        let choices = q.get_choices();
        assert_eq!(choices.len(), 4);
        // exactly one choice answers the numeral correctly
        let hits = choices
            .iter()
            .filter(|c| q.check_answer(&c.value))
            .count();
        assert_eq!(hits, 1);
    }
}

#[test]
fn quiz_catalogue() {
    assert_eq!(Quiz::Addition1_10.subject(), Subject::Addition);
    assert_eq!(Quiz::Median.subject(), Subject::Statisitics);
    assert_eq!(Quiz::SquareArea.subject(), Subject::Geometry);
    assert_eq!(Quiz::NoCourse.number_of_questions(), 1);
    assert_eq!(Quiz::Expression.number_of_questions(), 10);
}
