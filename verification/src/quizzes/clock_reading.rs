//! Read an analog clock and type the time in 24-hour form.

use vstd::prelude::*;
use crate::quiz::Question;
use crate::rng::rand_i64;
use crate::text::{two_digit, two_digit_str};
use crate::util::{time_input_matches, validate_time_input};

verus! {

#[derive(Clone, Debug, PartialEq)]
pub struct ClockReadingQuestion {
    hour: u8,
    minute: u8,
    is_afternoon: bool,
    answer_text: String,
}

/// A 12-hour display hour carried to 24-hour form.
pub open spec fn hour_24_of(hour: int, is_afternoon: bool) -> int {
    if is_afternoon && hour != 12 {
        hour + 12
    } else if !is_afternoon && hour == 12 {
        0
    } else {
        hour
    }
}

/// The expected answer: `HH:MM` in 24-hour form.
pub open spec fn clock_answer(hour24: int, minute: int) -> Seq<char> {
    two_digit(hour24) + ":"@ + two_digit(minute)
}

impl ClockReadingQuestion {
    pub closed spec fn spec_hour(self) -> int {
        self.hour as int
    }

    pub closed spec fn spec_minute(self) -> int {
        self.minute as int
    }

    pub closed spec fn spec_afternoon(self) -> bool {
        self.is_afternoon
    }

    pub closed spec fn spec_answer(self) -> Seq<char> {
        self.answer_text@
    }

    pub fn new(hour: u8, minute: u8, is_afternoon: bool) -> (q: Self)
        requires
            1 <= hour <= 12,
            minute <= 59,
        ensures
            q.spec_hour() == hour_24_of(hour as int, is_afternoon),
            q.spec_minute() == minute,
            q.spec_afternoon() == is_afternoon,
            q.spec_answer() == clock_answer(hour_24_of(hour as int, is_afternoon), minute as int),
    {
        let hour_24: u8 = if is_afternoon && hour != 12 {
            hour + 12
        } else if !is_afternoon && hour == 12 {
            0
        } else {
            hour
        };
        let mut s = two_digit_str(hour_24);
        let sep = String::from_str(":");
        s.append(sep.as_str());
        let m = two_digit_str(minute);
        s.append(m.as_str());
        proof {
            assert(s@ =~= clock_answer(hour_24_of(hour as int, is_afternoon), minute as int));
        }
        ClockReadingQuestion { hour: hour_24, minute, is_afternoon, answer_text: s }
    }

    pub fn random() -> (q: Self)
        ensures
            0 <= q.spec_hour() <= 23,
            q.spec_minute() % 5 == 0 && q.spec_minute() <= 55,
            q.spec_answer() == clock_answer(q.spec_hour(), q.spec_minute()),
    {
        let display_hour = rand_i64(1, 13) as u8;
        let minute_slot = rand_i64(0, 12);
        let minute = (minute_slot * 5) as u8;
        let is_afternoon = rand_i64(0, 2) == 1;
        Self::new(display_hour, minute, is_afternoon)
    }

    pub fn random_any_minute() -> (q: Self)
        ensures
            0 <= q.spec_hour() <= 23,
            0 <= q.spec_minute() <= 59,
            q.spec_answer() == clock_answer(q.spec_hour(), q.spec_minute()),
    {
        let display_hour = rand_i64(1, 13) as u8;
        let minute = rand_i64(0, 60) as u8;
        let is_afternoon = rand_i64(0, 2) == 1;
        Self::new(display_hour, minute, is_afternoon)
    }

    /// The hour hand position on a 12-hour face.
    pub fn display_hour(&self) -> (h: u8)
        requires
            self.spec_hour() <= 23,
        ensures
            h == (if self.spec_hour() == 0 {
                12int
            } else if self.spec_hour() > 12 {
                self.spec_hour() - 12
            } else {
                self.spec_hour()
            }),
    {
        if self.hour == 0 {
            12
        } else if self.hour > 12 {
            self.hour - 12
        } else {
            self.hour
        }
    }

    pub fn minute(&self) -> (m: u8)
        ensures
            m == self.spec_minute(),
    {
        self.minute
    }

    pub fn is_afternoon(&self) -> (r: bool)
        ensures
            r == self.spec_afternoon(),
    {
        self.is_afternoon
    }
}

impl Question for ClockReadingQuestion {
    fn prompt(&self) -> (r: String)
        ensures
            r@ == "Vad visar klockan?"@,
    {
        String::from_str("Vad visar klockan?")
    }

    fn answer(&self) -> (r: &str)
        ensures
            r@ == self.spec_answer(),
    {
        self.answer_text.as_str()
    }

    fn check_answer(&self, answer: &str) -> (r: bool)
        ensures
            r == time_input_matches(answer@, self.spec_hour(), self.spec_minute()),
    {
        validate_time_input(answer, self.hour, self.minute)
    }

    fn display(&self) -> (r: String)
        ensures
            r@ == "Vad visar klockan?"@,
    {
        self.prompt()
    }
}

} // verus!
