//! Compute the average of a small sample; random samples are drawn so
//! the average comes out whole.

use vstd::prelude::*;
use crate::quiz::Question;
use crate::rng::rand_i64;
use crate::stats::{i32_list_str, list_string, sum_i32, sum_of};
use crate::text::{round_away, tenths_str, tenths_string};
use crate::util::{answers_match, validate_input};

verus! {

#[derive(Clone, Debug, PartialEq)]
pub struct AverageQuestion {
    numbers: Vec<i32>,
    answer: String,
}

/// The sample's average in tenths, rounded half away from zero; an
/// empty sample averages to zero.
pub open spec fn average_tenths(s: Seq<i32>) -> int {
    if s.len() == 0 {
        0
    } else if sum_of(s) >= 0 {
        round_away(10 * sum_of(s), s.len() as int)
    } else {
        -round_away(10 * -sum_of(s), s.len() as int)
    }
}

/// The prompt text posing the sample.
pub open spec fn average_prompt(s: Seq<i32>) -> Seq<char> {
    "Beräkna medelvärdet: "@ + list_string(s)
}

impl AverageQuestion {
    pub closed spec fn spec_numbers(self) -> Seq<i32> {
        self.numbers@
    }

    pub closed spec fn spec_answer(self) -> Seq<char> {
        self.answer@
    }

    /// The sample the question poses.
    pub fn numbers(&self) -> (r: &Vec<i32>)
        ensures
            r@ == self.spec_numbers(),
    {
        &self.numbers
    }

    pub fn new(numbers: Vec<i32>) -> (q: Self)
        ensures
            q.spec_numbers() == numbers@,
            q.spec_answer() == tenths_string(average_tenths(numbers@)),
    {
        let n = numbers.len();
        let t: i128 = if n == 0 {
            0
        } else {
            let s = sum_i32(&numbers);
            proof {
                crate::stats::lemma_sum_bound(numbers@);
            }
            if s >= 0 {
                crate::text::round_away_i128(10 * s, n as i128)
            } else {
                let m = crate::text::round_away_i128(10 * -s, n as i128);
                -m
            }
        };
        proof {
            if n > 0 && sum_of(numbers@) < 0 {
                assert(round_away(10 * -sum_of(numbers@), n as int) >= 0);
            }
            assert(t == average_tenths(numbers@));
        }
        AverageQuestion { numbers, answer: tenths_str(t) }
    }

    pub fn random() -> (q: Self)
        ensures
            4 <= q.spec_numbers().len() <= 5,
            forall|i: int|
                0 <= i < q.spec_numbers().len() ==> 0 <= #[trigger] q.spec_numbers()[i] < 20,
            sum_of(q.spec_numbers()) % (q.spec_numbers().len() as int) == 0,
            q.spec_answer() == tenths_string(average_tenths(q.spec_numbers())),
    {
        let mut attempts: u32 = 0;
        while attempts < 10000
            invariant
                attempts <= 10000,
            decreases 10000 - attempts,
        {
            let count = rand_i64(4, 6);
            let mut numbers: Vec<i32> = Vec::new();
            let mut k: i64 = 0;
            while k < count
                invariant
                    0 <= k <= count < 6,
                    numbers@.len() == k,
                    forall|i: int| 0 <= i < numbers@.len() ==> 0 <= #[trigger] numbers@[i] < 20,
                decreases count - k,
            {
                let x = rand_i64(0, 20) as i32;
                numbers.push(x);
                k = k + 1;
            }
            let s = sum_i32(&numbers);
            proof {
                crate::stats::lemma_sum_bound(numbers@);
                crate::stats::lemma_sum_nonneg(numbers@);
            }
            if s % (count as i128) == 0 {
                return Self::new(numbers);
            }
            attempts = attempts + 1;
        }
        // a vanishingly unlikely fallback: a fixed sample whose average
        // is whole
        let mut numbers: Vec<i32> = Vec::new();
        numbers.push(2);
        numbers.push(4);
        numbers.push(6);
        numbers.push(8);
        proof {
            let l4 = seq![2i32, 4i32, 6i32, 8i32];
            let l3 = seq![2i32, 4i32, 6i32];
            let l2 = seq![2i32, 4i32];
            let l1 = seq![2i32];
            let l0 = Seq::<i32>::empty();
            assert(numbers@ =~= l4);
            assert(l4.drop_last() =~= l3);
            assert(l3.drop_last() =~= l2);
            assert(l2.drop_last() =~= l1);
            assert(l1.drop_last() =~= l0);
            assert(sum_of(l0) == 0);
            assert(sum_of(l1) == 2);
            assert(sum_of(l2) == 6);
            assert(sum_of(l3) == 12);
            assert(sum_of(l4) == 20);
        }
        Self::new(numbers)
    }
}

impl Question for AverageQuestion {
    fn prompt(&self) -> (r: String)
        ensures
            r@ == average_prompt(self.spec_numbers()),
    {
        let mut s = String::from_str("Beräkna medelvärdet: ");
        let lst = i32_list_str(&self.numbers);
        s.append(lst.as_str());
        proof {
            assert(s@ =~= average_prompt(self.spec_numbers()));
        }
        s
    }

    fn answer(&self) -> (r: &str)
        ensures
            r@ == self.spec_answer(),
    {
        self.answer.as_str()
    }

    fn check_answer(&self, answer: &str) -> (r: bool)
        ensures
            r == answers_match(self.spec_answer(), answer@),
    {
        validate_input(self.answer.as_str(), answer)
    }

    fn display(&self) -> (r: String)
        ensures
            r@ == average_prompt(self.spec_numbers()),
    {
        self.prompt()
    }
}

} // verus!
