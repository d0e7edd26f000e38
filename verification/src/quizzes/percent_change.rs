//! A price changes by a percentage; compute the new price to one
//! decimal.

use vstd::prelude::*;
use crate::quiz::Question;
use crate::rng::rand_i64;
use crate::text::{int_string, mul_i32, round_away, tenths_str, tenths_string};
use crate::util::{answers_match, validate_input};

verus! {

#[derive(Clone, Debug, PartialEq)]
pub struct PercentChangeQuestion {
    current_price: i32,
    percentage_change: i32,
    item: String,
    answer: String,
}

/// The new price in tenths: `price * (100 + pct) / 100`, rounded half
/// away from zero.
pub open spec fn new_price_tenths(price: int, pct: int) -> int {
    let scaled = price * (100 + pct);
    if scaled < 0 {
        -round_away(-scaled, 10)
    } else {
        round_away(scaled, 10)
    }
}

/// The prompt text: raised, lowered, or unchanged.
pub open spec fn percent_prompt(item: Seq<char>, price: int, pct: int) -> Seq<char> {
    if pct > 0 {
        item + " kostar "@ + int_string(price) + "kr. Priset höjs med "@ + int_string(pct)
            + "%. Beräkna det nya priset."@
    } else if pct < 0 {
        item + " kostar "@ + int_string(price) + "kr. Priset sänks med "@ + int_string(-pct)
            + "%. Beräkna det nya priset."@
    } else {
        "Vad är det nya priset på "@ + item + " efter prisförändring på 0%?"@
    }
}

/// One of the six wares a price is quoted for.
pub open spec fn is_item_label(s: Seq<char>) -> bool {
    ||| s == "Donald Duck comic book"@
    ||| s == "Nintendo Switch 2"@
    ||| s == "Tesla Cybertruck"@
    ||| s == "iPhone 16"@
    ||| s == "PlayStation 5"@
    ||| s == "Minecraft account"@
}

/// Pick one of the six wares at random.
fn random_item() -> (r: String)
    ensures
        is_item_label(r@),
{
    let i = rand_i64(0, 6);
    let r = if i == 0 {
        String::from_str("Donald Duck comic book")
    } else if i == 1 {
        String::from_str("Nintendo Switch 2")
    } else if i == 2 {
        String::from_str("Tesla Cybertruck")
    } else if i == 3 {
        String::from_str("iPhone 16")
    } else if i == 4 {
        String::from_str("PlayStation 5")
    } else {
        String::from_str("Minecraft account")
    };
    r
}

impl PercentChangeQuestion {
    pub closed spec fn spec_price(self) -> int {
        self.current_price as int
    }

    pub closed spec fn spec_pct(self) -> int {
        self.percentage_change as int
    }

    pub closed spec fn spec_item(self) -> Seq<char> {
        self.item@
    }

    pub closed spec fn spec_answer(self) -> Seq<char> {
        self.answer@
    }

    pub fn new(current_price: i32, percent_change: i32) -> (q: Self)
        ensures
            q.spec_price() == current_price,
            q.spec_pct() == percent_change,
            is_item_label(q.spec_item()),
            q.spec_answer() == tenths_string(
                new_price_tenths(current_price as int, percent_change as int),
            ),
    {
        let scaled: i128 = mul_i32(current_price, 100) as i128 + mul_i32(
            current_price,
            percent_change,
        ) as i128;
        proof {
            assert(current_price as int * 100 + current_price as int * percent_change as int
                == current_price as int * (100 + percent_change as int)) by (nonlinear_arith);
        }
        let t: i128 = if scaled < 0 {
            let m = crate::text::round_away_i128(-scaled, 10);
            -m
        } else {
            crate::text::round_away_i128(scaled, 10)
        };
        proof {
            if scaled >= 0 {
                assert(round_away(scaled as int, 10) >= 0);
            } else {
                assert(round_away(-(scaled as int), 10) >= 0);
            }
            assert(t == new_price_tenths(current_price as int, percent_change as int));
        }
        PercentChangeQuestion {
            current_price,
            item: random_item(),
            percentage_change: percent_change,
            answer: tenths_str(t),
        }
    }

    pub fn random() -> (q: Self)
        ensures
            1 <= q.spec_price() < 1000,
            -50 <= q.spec_pct() < 250,
            q.spec_answer() == tenths_string(new_price_tenths(q.spec_price(), q.spec_pct())),
    {
        let current_price = rand_i64(1, 1000) as i32;
        let percentage_change = rand_i64(-50, 250) as i32;
        Self::new(current_price, percentage_change)
    }
}

impl Question for PercentChangeQuestion {
    fn prompt(&self) -> (r: String)
        ensures
            r@ == percent_prompt(self.spec_item(), self.spec_price(), self.spec_pct()),
    {
        let mut s: String;
        if self.percentage_change > 0 {
            s = self.item.clone();
            let p1 = String::from_str(" kostar ");
            s.append(p1.as_str());
            let pr = crate::text::i64_string(self.current_price as i64);
            s.append(pr.as_str());
            let p2 = String::from_str("kr. Priset höjs med ");
            s.append(p2.as_str());
            let pc = crate::text::i64_string(self.percentage_change as i64);
            s.append(pc.as_str());
            let p3 = String::from_str("%. Beräkna det nya priset.");
            s.append(p3.as_str());
        } else if self.percentage_change < 0 {
            s = self.item.clone();
            let p1 = String::from_str(" kostar ");
            s.append(p1.as_str());
            let pr = crate::text::i64_string(self.current_price as i64);
            s.append(pr.as_str());
            let p2 = String::from_str("kr. Priset sänks med ");
            s.append(p2.as_str());
            let pc = crate::text::i64_string(-(self.percentage_change as i64));
            s.append(pc.as_str());
            let p3 = String::from_str("%. Beräkna det nya priset.");
            s.append(p3.as_str());
        } else {
            s = String::from_str("Vad är det nya priset på ");
            s.append(self.item.as_str());
            let p1 = String::from_str(" efter prisförändring på 0%?");
            s.append(p1.as_str());
        }
        proof {
            assert(s@ =~= percent_prompt(self.spec_item(), self.spec_price(), self.spec_pct()));
        }
        s
    }

    fn answer(&self) -> (r: &str)
        ensures
            r@ == self.spec_answer(),
    {
        self.answer.as_str()
    }

    fn check_answer(&self, answer: &str) -> (r: bool)
        ensures
            r == answers_match(self.spec_answer(), answer@),
    {
        validate_input(self.answer.as_str(), answer)
    }

    fn display(&self) -> (r: String)
        ensures
            r@ == percent_prompt(self.spec_item(), self.spec_price(), self.spec_pct()),
    {
        self.prompt()
    }
}

} // verus!
