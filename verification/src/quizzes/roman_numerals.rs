//! Read a Roman numeral and pick its value among four choices.

use vstd::prelude::*;
use crate::quiz::{Choice, MultipleChoiceQuestionProvider, Question};
use crate::rng::{rand_i64, shuffle_u16};
use crate::text::{all_digits, dec_digits, digits_value, parse_digits, u128_string};

verus! {

/// The Roman numeral of `n`, written greedily from the largest symbol.
pub open spec fn roman_of(n: int) -> Seq<char>
    decreases n,
{
    if n <= 0 {
        Seq::<char>::empty()
    } else if n >= 1000 {
        "M"@ + roman_of(n - 1000)
    } else if n >= 900 {
        "CM"@ + roman_of(n - 900)
    } else if n >= 500 {
        "D"@ + roman_of(n - 500)
    } else if n >= 400 {
        "CD"@ + roman_of(n - 400)
    } else if n >= 100 {
        "C"@ + roman_of(n - 100)
    } else if n >= 90 {
        "XC"@ + roman_of(n - 90)
    } else if n >= 50 {
        "L"@ + roman_of(n - 50)
    } else if n >= 40 {
        "XL"@ + roman_of(n - 40)
    } else if n >= 10 {
        "X"@ + roman_of(n - 10)
    } else if n >= 9 {
        "IX"@ + roman_of(n - 9)
    } else if n >= 5 {
        "V"@ + roman_of(n - 5)
    } else if n >= 4 {
        "IV"@ + roman_of(n - 4)
    } else {
        "I"@ + roman_of(n - 1)
    }
}

/// Convert a number to its Roman numeral.
pub fn to_roman(num: u16) -> (r: String)
    ensures
        r@ == roman_of(num as int),
    decreases num,
{
    if num == 0 {
        let r = String::new();
        proof {
            assert(r@ =~= roman_of(0));
        }
        r
    } else if num >= 1000 {
        let mut s = String::from_str("M");
        let rest = to_roman(num - 1000);
        s.append(rest.as_str());
        proof {
            assert(s@ =~= roman_of(num as int));
        }
        s
    } else if num >= 900 {
        let mut s = String::from_str("CM");
        let rest = to_roman(num - 900);
        s.append(rest.as_str());
        proof {
            assert(s@ =~= roman_of(num as int));
        }
        s
    } else if num >= 500 {
        let mut s = String::from_str("D");
        let rest = to_roman(num - 500);
        s.append(rest.as_str());
        proof {
            assert(s@ =~= roman_of(num as int));
        }
        s
    } else if num >= 400 {
        let mut s = String::from_str("CD");
        let rest = to_roman(num - 400);
        s.append(rest.as_str());
        proof {
            assert(s@ =~= roman_of(num as int));
        }
        s
    } else if num >= 100 {
        let mut s = String::from_str("C");
        let rest = to_roman(num - 100);
        s.append(rest.as_str());
        proof {
            assert(s@ =~= roman_of(num as int));
        }
        s
    } else if num >= 90 {
        let mut s = String::from_str("XC");
        let rest = to_roman(num - 90);
        s.append(rest.as_str());
        proof {
            assert(s@ =~= roman_of(num as int));
        }
        s
    } else if num >= 50 {
        let mut s = String::from_str("L");
        let rest = to_roman(num - 50);
        s.append(rest.as_str());
        proof {
            assert(s@ =~= roman_of(num as int));
        }
        s
    } else if num >= 40 {
        let mut s = String::from_str("XL");
        let rest = to_roman(num - 40);
        s.append(rest.as_str());
        proof {
            assert(s@ =~= roman_of(num as int));
        }
        s
    } else if num >= 10 {
        let mut s = String::from_str("X");
        let rest = to_roman(num - 10);
        s.append(rest.as_str());
        proof {
            assert(s@ =~= roman_of(num as int));
        }
        s
    } else if num >= 9 {
        let mut s = String::from_str("IX");
        let rest = to_roman(num - 9);
        s.append(rest.as_str());
        proof {
            assert(s@ =~= roman_of(num as int));
        }
        s
    } else if num >= 5 {
        let mut s = String::from_str("V");
        let rest = to_roman(num - 5);
        s.append(rest.as_str());
        proof {
            assert(s@ =~= roman_of(num as int));
        }
        s
    } else if num >= 4 {
        let mut s = String::from_str("IV");
        let rest = to_roman(num - 4);
        s.append(rest.as_str());
        proof {
            assert(s@ =~= roman_of(num as int));
        }
        s
    } else {
        let mut s = String::from_str("I");
        let rest = to_roman(num - 1);
        s.append(rest.as_str());
        proof {
            assert(s@ =~= roman_of(num as int));
        }
        s
    }
}

#[derive(Clone, Debug, PartialEq)]
pub struct RomanNumeralsQuestion {
    roman_numeral: String,
    choices: Vec<u16>,
    correct_answer: u16,
    answer_text: String,
}

impl RomanNumeralsQuestion {
    pub closed spec fn spec_correct(self) -> u16 {
        self.correct_answer
    }

    pub closed spec fn spec_choices(self) -> Seq<u16> {
        self.choices@
    }

    pub closed spec fn spec_numeral(self) -> Seq<char> {
        self.roman_numeral@
    }

    pub closed spec fn spec_answer(self) -> Seq<char> {
        self.answer_text@
    }

    pub fn random() -> (q: Self)
        ensures
            1 <= q.spec_correct() <= 100,
            q.spec_numeral() == roman_of(q.spec_correct() as int),
            q.spec_choices().len() == 4,
            q.spec_answer() == dec_digits(q.spec_correct() as nat),
            exists|k: int| 0 <= k < 4 && q.spec_choices()[k] == q.spec_correct(),
    {
        let correct_answer = rand_i64(1, 101) as u16;
        let roman_numeral = to_roman(correct_answer);
        let mut choices: Vec<u16> = Vec::new();
        choices.push(correct_answer);
        let mut attempts: u32 = 0;
        while choices.len() < 4 && attempts < 10000
            invariant
                1 <= correct_answer <= 100,
                1 <= choices@.len() <= 4,
                choices@[0] == correct_answer,
                attempts <= 10000,
            decreases 10000 - attempts,
        {
            let offset = rand_i64(-10, 11);
            if offset != 0 && correct_answer as i64 + offset > 0 {
                let candidate = (correct_answer as i64 + offset) as u16;
                let mut present = false;
                let mut k: usize = 0;
                let m = choices.len();
                while k < m
                    invariant
                        m == choices@.len(),
                        0 <= k <= m,
                        present ==> exists|j: int|
                            0 <= j < m && choices@[j] == candidate,
                    decreases m - k,
                {
                    if choices[k] == candidate {
                        present = true;
                    }
                    k = k + 1;
                }
                if !present {
                    choices.push(candidate);
                }
            }
            attempts = attempts + 1;
        }
        // a vanishingly unlikely fallback: pad with neighbours
        while choices.len() < 4
            invariant
                1 <= correct_answer <= 100,
                1 <= choices@.len() <= 4,
                choices@[0] == correct_answer,
            decreases 4 - choices@.len(),
        {
            let next = correct_answer + 100 + choices.len() as u16;
            choices.push(next);
        }
        let ghost pre = choices@;
        shuffle_u16(&mut choices);
        proof {
            assert(pre.to_multiset().contains(correct_answer)) by {
                assert(pre[0] == correct_answer);
                pre.to_multiset_ensures();
            }
            assert(choices@.to_multiset().contains(correct_answer));
            choices@.to_multiset_ensures();
            assert(choices@.contains(correct_answer));
            let k = choose|k: int| 0 <= k < choices@.len() && choices@[k] == correct_answer;
        }
        let answer_text = u128_string(correct_answer as u128);
        RomanNumeralsQuestion { roman_numeral, choices, correct_answer, answer_text }
    }

}

impl MultipleChoiceQuestionProvider for RomanNumeralsQuestion {
    fn get_choices(&self) -> (r: Vec<Choice>)
        ensures
            r@.len() == self.spec_choices().len(),
            forall|k: int|
                0 <= k < r@.len() ==> (#[trigger] r@[k]).display_text@ == dec_digits(
                    self.spec_choices()[k] as nat,
                ) && r@[k].value@ == dec_digits(self.spec_choices()[k] as nat),
    {
        let n = self.choices.len();
        let mut r: Vec<Choice> = Vec::new();
        let mut k: usize = 0;
        while k < n
            invariant
                n == self.choices@.len(),
                0 <= k <= n,
                r@.len() == k,
                forall|j: int|
                    0 <= j < k ==> (#[trigger] r@[j]).display_text@ == dec_digits(
                        self.choices@[j] as nat,
                    ) && r@[j].value@ == dec_digits(self.choices@[j] as nat),
            decreases n - k,
        {
            let d = u128_string(self.choices[k] as u128);
            let v = u128_string(self.choices[k] as u128);
            r.push(Choice { display_text: d, value: v });
            k = k + 1;
        }
        r
    }
}

impl Question for RomanNumeralsQuestion {
    fn prompt(&self) -> (r: String)
        ensures
            r@ == "Vad blir den romerska siffran "@ + self.spec_numeral() + "?"@,
    {
        let mut s = String::from_str("Vad blir den romerska siffran ");
        s.append(self.roman_numeral.as_str());
        let tail = String::from_str("?");
        s.append(tail.as_str());
        proof {
            assert(s@ =~= "Vad blir den romerska siffran "@ + self.spec_numeral() + "?"@);
        }
        s
    }

    fn answer(&self) -> (r: &str)
        ensures
            r@ == self.spec_answer(),
    {
        self.answer_text.as_str()
    }

    fn check_answer(&self, answer: &str) -> (r: bool)
        ensures
            r == (1 <= answer@.len() <= 12 && all_digits(answer@) && digits_value(answer@)
                == self.spec_correct() as int),
    {
        let p = parse_digits(answer);
        match p {
            Some(v) => v == self.correct_answer as u64,
            None => false,
        }
    }

    fn display(&self) -> (r: String)
        ensures
            r@ == "Vad blir den romerska siffran "@ + self.spec_numeral() + "?"@,
    {
        self.prompt()
    }
}

} // verus!
