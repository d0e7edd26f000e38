//! The quiz catalogue: courses, their subjects, and what any question
//! must offer the session that runs it.

use vstd::prelude::*;

verus! {

#[derive(Clone, PartialEq, Debug, Copy, Eq, Hash, Ord, PartialOrd)]
pub enum Subject {
    Addition,
    Subtraction,
    Multiplication,
    Division,
    Number,
    Geometry,
    Statisitics,
    Algebra,
    Random,
}

#[derive(Clone, PartialEq, Debug, Copy, Eq, Hash, Structural)]
pub enum Quiz {
    NoCourse,
    Addition1_10,
    Addition100,
    Subtraction1_10,
    Multiplication1_10,
    Multiplication1_20,
    Division1_10,
    SquareArea,
    FirstOrderEquation,
    FirstDegreeDerivativeQuestion,
    NumberComparison,
    FractionComparison,
    Rounding,
    Average,
    Median,
    FractionToDegree,
    PercentChange,
    Expression,
}

/// The subject a course belongs to.
pub open spec fn subject_of(q: Quiz) -> Subject {
    match q {
        Quiz::NoCourse => Subject::Addition,
        Quiz::Addition1_10 => Subject::Addition,
        Quiz::Addition100 => Subject::Addition,
        Quiz::Subtraction1_10 => Subject::Subtraction,
        Quiz::Multiplication1_10 => Subject::Multiplication,
        Quiz::Multiplication1_20 => Subject::Multiplication,
        Quiz::Division1_10 => Subject::Division,
        Quiz::SquareArea => Subject::Geometry,
        Quiz::FirstOrderEquation => Subject::Algebra,
        Quiz::FirstDegreeDerivativeQuestion => Subject::Algebra,
        Quiz::NumberComparison => Subject::Number,
        Quiz::FractionComparison => Subject::Number,
        Quiz::Rounding => Subject::Number,
        Quiz::Average => Subject::Statisitics,
        Quiz::Median => Subject::Statisitics,
        Quiz::FractionToDegree => Subject::Geometry,
        Quiz::PercentChange => Subject::Statisitics,
        Quiz::Expression => Subject::Algebra,
    }
}

/// The course's display title.
pub open spec fn title_of(q: Quiz) -> Seq<char> {
    match q {
        Quiz::NoCourse => "Välj en quiz"@,
        Quiz::Addition1_10 => "Addition 1-10"@,
        Quiz::Addition100 => "Addition 100-999"@,
        Quiz::Subtraction1_10 => "Subtraktion 1-10"@,
        Quiz::Multiplication1_10 => "Multiplikation 1-10"@,
        Quiz::Multiplication1_20 => "Multiplikation 1-20"@,
        Quiz::Division1_10 => "Division 1-10"@,
        Quiz::SquareArea => "Area"@,
        Quiz::FirstOrderEquation => "Första ordningens ekvation"@,
        Quiz::FirstDegreeDerivativeQuestion => "Första gradens derivata"@,
        Quiz::NumberComparison => "Störst värde"@,
        Quiz::FractionComparison => "Störst bråk"@,
        Quiz::Rounding => "Avrundning"@,
        Quiz::Average => "Medelvärde"@,
        Quiz::Median => "Median"@,
        Quiz::FractionToDegree => "Bråk till grader"@,
        Quiz::PercentChange => "Procentuell förändring"@,
        Quiz::Expression => "Matematiska uttryck"@,
    }
}

impl Quiz {
    /// The title the course is shown under.
    pub fn title(&self) -> (r: String)
        ensures
            r@ == title_of(*self),
    {
        match self {
            Quiz::NoCourse => String::from_str("Välj en quiz"),
            Quiz::Addition1_10 => String::from_str("Addition 1-10"),
            Quiz::Addition100 => String::from_str("Addition 100-999"),
            Quiz::Subtraction1_10 => String::from_str("Subtraktion 1-10"),
            Quiz::Multiplication1_10 => String::from_str("Multiplikation 1-10"),
            Quiz::Multiplication1_20 => String::from_str("Multiplikation 1-20"),
            Quiz::Division1_10 => String::from_str("Division 1-10"),
            Quiz::SquareArea => String::from_str("Area"),
            Quiz::FirstOrderEquation => String::from_str("Första ordningens ekvation"),
            Quiz::FirstDegreeDerivativeQuestion => String::from_str("Första gradens derivata"),
            Quiz::NumberComparison => String::from_str("Störst värde"),
            Quiz::FractionComparison => String::from_str("Störst bråk"),
            Quiz::Rounding => String::from_str("Avrundning"),
            Quiz::Average => String::from_str("Medelvärde"),
            Quiz::Median => String::from_str("Median"),
            Quiz::FractionToDegree => String::from_str("Bråk till grader"),
            Quiz::PercentChange => String::from_str("Procentuell förändring"),
            Quiz::Expression => String::from_str("Matematiska uttryck"),
        }
    }

    pub fn subject(&self) -> (s: Subject)
        ensures
            s == subject_of(*self),
    {
        match self {
            Quiz::NoCourse => Subject::Addition,
            Quiz::Addition1_10 => Subject::Addition,
            Quiz::Addition100 => Subject::Addition,
            Quiz::Subtraction1_10 => Subject::Subtraction,
            Quiz::Multiplication1_10 => Subject::Multiplication,
            Quiz::Multiplication1_20 => Subject::Multiplication,
            Quiz::Division1_10 => Subject::Division,
            Quiz::SquareArea => Subject::Geometry,
            Quiz::FirstOrderEquation => Subject::Algebra,
            Quiz::FirstDegreeDerivativeQuestion => Subject::Algebra,
            Quiz::NumberComparison => Subject::Number,
            Quiz::FractionComparison => Subject::Number,
            Quiz::Rounding => Subject::Number,
            Quiz::Average => Subject::Statisitics,
            Quiz::Median => Subject::Statisitics,
            Quiz::FractionToDegree => Subject::Geometry,
            Quiz::PercentChange => Subject::Statisitics,
            Quiz::Expression => Subject::Algebra,
        }
    }

    /// Every playable course asks ten questions; the empty selection one.
    pub fn number_of_questions(&self) -> (n: usize)
        ensures
            n == (if *self == Quiz::NoCourse {
                1int
            } else {
                10int
            }),
    {
        match self {
            Quiz::NoCourse => 1,
            _ => 10,
        }
    }
}

/// What a question offers the quiz session: a prompt to pose, the
/// expected answer, and a check of a typed answer.
pub trait Question {
    fn prompt(&self) -> String;

    fn answer(&self) -> &str;

    fn check_answer(&self, answer: &str) -> bool;

    fn display(&self) -> String;
}

/// One selectable choice of a multiple-choice question.
#[derive(Clone, Debug, PartialEq)]
pub struct Choice {
    pub display_text: String,
    pub value: String,
}

/// A question posed as a row of choice buttons.
pub trait MultipleChoiceQuestionProvider: Question + Clone + PartialEq {
    fn get_choices(&self) -> Vec<Choice>;
}

} // verus!
