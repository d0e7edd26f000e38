//! Find the median of a small sample; random samples are drawn so the
//! median comes out whole.

use vstd::prelude::*;
use crate::quiz::Question;
use crate::rng::rand_i64;
use crate::stats::{i32_list_str, lemma_sort_len, list_string, sort_spec, sorted_i32};
use crate::text::{tenths_str, tenths_string};
use crate::util::{answers_match, validate_input};

verus! {

#[derive(Clone, Debug, PartialEq)]
pub struct MedianQuestion {
    numbers: Vec<i32>,
    answer: String,
}

/// The sample's median in tenths: the middle of the sorted sample, or
/// the mean of the two middles for an even-sized sample.
pub open spec fn median_tenths(s: Seq<i32>) -> int {
    let t = sort_spec(s);
    if s.len() == 0 {
        0
    } else if s.len() % 2 == 0 {
        (t[s.len() as int / 2 - 1] + t[s.len() as int / 2]) * 5
    } else {
        t[s.len() as int / 2] * 10
    }
}

/// The prompt text posing the sample.
pub open spec fn median_prompt(s: Seq<i32>) -> Seq<char> {
    "Beräkna medianen: "@ + list_string(s)
}

impl MedianQuestion {
    pub closed spec fn spec_numbers(self) -> Seq<i32> {
        self.numbers@
    }

    pub closed spec fn spec_answer(self) -> Seq<char> {
        self.answer@
    }

    /// The sample the question poses.
    pub fn numbers(&self) -> (r: &Vec<i32>)
        ensures
            r@ == self.spec_numbers(),
    {
        &self.numbers
    }

    pub fn new(numbers: Vec<i32>) -> (q: Self)
        requires
            numbers@.len() >= 1,
        ensures
            q.spec_numbers() == numbers@,
            q.spec_answer() == tenths_string(median_tenths(numbers@)),
    {
        let sorted = sorted_i32(&numbers);
        proof {
            lemma_sort_len(numbers@);
        }
        let n = sorted.len();
        let t: i128 = if n % 2 == 0 {
            (sorted[n / 2 - 1] as i128 + sorted[n / 2] as i128) * 5
        } else {
            sorted[n / 2] as i128 * 10
        };
        proof {
            assert(t == median_tenths(numbers@));
        }
        MedianQuestion { numbers, answer: tenths_str(t) }
    }

    pub fn random() -> (q: Self)
        ensures
            4 <= q.spec_numbers().len() <= 5,
            forall|i: int|
                0 <= i < q.spec_numbers().len() ==> 0 <= #[trigger] q.spec_numbers()[i] < 20,
            median_tenths(q.spec_numbers()) % 10 == 0,
            q.spec_answer() == tenths_string(median_tenths(q.spec_numbers())),
    {
        let mut attempts: u32 = 0;
        while attempts < 10000
            invariant
                attempts <= 10000,
            decreases 10000 - attempts,
        {
            let count = rand_i64(4, 6);
            let mut numbers: Vec<i32> = Vec::new();
            let mut k: i64 = 0;
            while k < count
                invariant
                    0 <= k <= count < 6,
                    4 <= count,
                    numbers@.len() == k,
                    forall|i: int| 0 <= i < numbers@.len() ==> 0 <= #[trigger] numbers@[i] < 20,
                decreases count - k,
            {
                let x = rand_i64(0, 20) as i32;
                numbers.push(x);
                k = k + 1;
            }
            let sorted = sorted_i32(&numbers);
            proof {
                lemma_sort_len(numbers@);
            }
            let n = sorted.len();
            let whole = if n % 2 == 0 {
                (sorted[n / 2 - 1] as i128 + sorted[n / 2] as i128) % 2 == 0
            } else {
                true
            };
            if whole {
                proof {
                    let t = median_tenths(numbers@);
                    if numbers@.len() % 2 == 0 {
                        let a = sort_spec(numbers@)[numbers@.len() as int / 2 - 1] as int;
                        let b = sort_spec(numbers@)[numbers@.len() as int / 2] as int;
                        assert((a + b) % 2 == 0);
                        assert(((a + b) * 5) % 10 == 0) by (nonlinear_arith)
                            requires
                                (a + b) % 2 == 0,
                        ;
                    } else {
                        let c = sort_spec(numbers@)[numbers@.len() as int / 2] as int;
                        assert((c * 10) % 10 == 0) by (nonlinear_arith);
                    }
                    assert(t % 10 == 0);
                }
                return Self::new(numbers);
            }
            attempts = attempts + 1;
        }
        // a vanishingly unlikely fallback: an odd-sized sample, whose
        // median is always whole
        let mut numbers: Vec<i32> = Vec::new();
        numbers.push(0);
        numbers.push(1);
        numbers.push(2);
        numbers.push(3);
        numbers.push(4);
        proof {
            assert(numbers@.len() == 5);
            lemma_sort_len(numbers@);
            let c = sort_spec(numbers@)[2] as int;
            assert((c * 10) % 10 == 0) by (nonlinear_arith);
            assert(median_tenths(numbers@) % 10 == 0);
        }
        Self::new(numbers)
    }
}

impl Question for MedianQuestion {
    fn prompt(&self) -> (r: String)
        ensures
            r@ == median_prompt(self.spec_numbers()),
    {
        let mut s = String::from_str("Beräkna medianen: ");
        let lst = i32_list_str(&self.numbers);
        s.append(lst.as_str());
        proof {
            assert(s@ =~= median_prompt(self.spec_numbers()));
        }
        s
    }

    fn answer(&self) -> (r: &str)
        ensures
            r@ == self.spec_answer(),
    {
        self.answer.as_str()
    }

    fn check_answer(&self, answer: &str) -> (r: bool)
        ensures
            r == answers_match(self.spec_answer(), answer@),
    {
        validate_input(self.answer.as_str(), answer)
    }

    fn display(&self) -> (r: String)
        ensures
            r@ == median_prompt(self.spec_numbers()),
    {
        self.prompt()
    }
}

} // verus!
