//! Differentiate a small polynomial and type the derivative.

use vstd::prelude::*;
use crate::normalize::{lower_of, to_lowercase_str, trim, trim_spec};
use crate::quiz::Question;
use crate::rng::rand_i64;
use crate::text::{dec_digits, eq_modulo_spaces, int_string, strip_spaces};

verus! {

/// One written term of a polynomial: its sign (bare only for a leading
/// negative), its coefficient unless it is a plain 1, and its power.
pub open spec fn term_text(coef: int, exp: int, first: bool) -> Seq<char> {
    let sign = if first {
        if coef < 0 {
            seq!['-']
        } else {
            Seq::<char>::empty()
        }
    } else {
        if coef < 0 {
            " - "@
        } else {
            " + "@
        }
    };
    let a = if coef < 0 {
        -coef
    } else {
        coef
    };
    let coef_txt = if a != 1 || exp == 0 {
        dec_digits(a as nat)
    } else {
        Seq::<char>::empty()
    };
    let var_txt = if exp == 0 {
        Seq::<char>::empty()
    } else if exp == 1 {
        "x"@
    } else {
        "x^"@ + dec_digits(exp as nat)
    };
    sign + coef_txt + var_txt
}

/// The written terms, zero coefficients skipped, `first` saying whether
/// any term has been written yet.
pub open spec fn poly_terms_text(terms: Seq<(i32, u32)>, first: bool) -> Seq<char>
    decreases terms.len(),
{
    if terms.len() == 0 {
        Seq::<char>::empty()
    } else if terms[0].0 == 0 {
        poly_terms_text(terms.drop_first(), first)
    } else {
        term_text(terms[0].0 as int, terms[0].1 as int, first) + poly_terms_text(
            terms.drop_first(),
            false,
        )
    }
}

pub open spec fn any_nonzero(terms: Seq<(i32, u32)>) -> bool {
    exists|i: int| 0 <= i < terms.len() && (#[trigger] terms[i]).0 != 0
}

/// The written polynomial: its terms, then the constant, with "0" for
/// nothing at all and a bare constant when there are no terms.
pub open spec fn poly_text(terms: Seq<(i32, u32)>, constant: int) -> Seq<char> {
    if terms.len() == 0 && constant == 0 {
        "0"@
    } else if terms.len() == 0 {
        int_string(constant)
    } else {
        let body = poly_terms_text(terms, true);
        if constant != 0 {
            if any_nonzero(terms) {
                body + (if constant < 0 {
                    " - "@ + dec_digits((-constant) as nat)
                } else {
                    " + "@ + dec_digits(constant as nat)
                })
            } else {
                body + int_string(constant)
            }
        } else {
            body
        }
    }
}

/// The power rule applied term by term, constants dropped.
pub open spec fn derivative_of(terms: Seq<(i32, u32)>) -> Seq<(i32, u32)>
    decreases terms.len(),
{
    if terms.len() == 0 {
        terms
    } else {
        let rest = derivative_of(terms.drop_last());
        let t = terms.last();
        if t.1 > 0 {
            rest.push((((t.0 as int) * (t.1 as int)) as i32, (t.1 - 1) as u32))
        } else {
            rest
        }
    }
}

#[derive(Clone, Debug, PartialEq)]
pub struct FirstDegreeDerivativeQuestion {
    terms: Vec<(i32, u32)>,
    constant: i32,
    answer_text: String,
}

impl FirstDegreeDerivativeQuestion {
    pub closed spec fn spec_terms(self) -> Seq<(i32, u32)> {
        self.terms@
    }

    pub closed spec fn spec_constant(self) -> int {
        self.constant as int
    }

    pub closed spec fn spec_answer(self) -> Seq<char> {
        self.answer_text@
    }

    /// Write out a polynomial as its answer text reads.
    #[verifier::rlimit(50)]
    pub fn format_polynomial(terms: &Vec<(i32, u32)>, constant: i32) -> (r: String)
        ensures
            r@ == poly_text(terms@, constant as int),
    {
        let n = terms.len();
        if n == 0 {
            if constant == 0 {
                return String::from_str("0");
            }
            return crate::text::i64_string(constant as i64);
        }
        let mut s = String::new();
        let mut first = true;
        let mut i: usize = 0;
        proof {
            assert(terms@.subrange(0, n as int) =~= terms@);
        }
        while i < n
            invariant
                n == terms@.len(),
                0 <= i <= n,
                poly_terms_text(terms@, true) == s@ + poly_terms_text(
                    terms@.subrange(i as int, n as int),
                    first,
                ),
                first == (forall|j: int| 0 <= j < i ==> (#[trigger] terms@[j]).0 == 0),
            decreases n - i,
        {
            let (coef, exp) = (terms[i].0, terms[i].1);
            let ghost suf = terms@.subrange(i as int, n as int);
            proof {
                assert(suf[0] == terms@[i as int]);
                assert(suf.drop_first() =~= terms@.subrange(i as int + 1, n as int));
            }
            if coef != 0 {
                // the sign
                if first {
                    if coef < 0 {
                        let m = String::from_str("-");
                        s.append(m.as_str());
                    }
                } else if coef < 0 {
                    let m = String::from_str(" - ");
                    s.append(m.as_str());
                } else {
                    let m = String::from_str(" + ");
                    s.append(m.as_str());
                }
                // the coefficient
                let a: i64 = if coef < 0 {
                    -(coef as i64)
                } else {
                    coef as i64
                };
                if a != 1 || exp == 0 {
                    let at = crate::text::i128_string(a as i128);
                    s.append(at.as_str());
                }
                // the power
                if exp == 1 {
                    let x = String::from_str("x");
                    s.append(x.as_str());
                } else if exp > 1 {
                    let x = String::from_str("x^");
                    s.append(x.as_str());
                    let e = crate::text::u128_string(exp as u128);
                    s.append(e.as_str());
                }
                proof {
                    reveal_strlit("-");
                    reveal_strlit(" - ");
                    reveal_strlit(" + ");
                    reveal_strlit("x");
                    reveal_strlit("x^");
                    assert(poly_terms_text(suf, first) =~= term_text(
                        suf[0].0 as int,
                        suf[0].1 as int,
                        first,
                    ) + poly_terms_text(suf.drop_first(), false));
                }
                first = false;
            }
            i = i + 1;
        }
        proof {
            assert(terms@.subrange(n as int, n as int) =~= Seq::<(i32, u32)>::empty());
            assert(s@ == poly_terms_text(terms@, true));
            if first {
                assert(!any_nonzero(terms@));
            } else {
                let j = choose|j: int| 0 <= j < n && (#[trigger] terms@[j]).0 != 0;
                assert(any_nonzero(terms@));
            }
        }
        if constant != 0 {
            if !first {
                if constant < 0 {
                    let m = String::from_str(" - ");
                    s.append(m.as_str());
                    let c = crate::text::i64_string(-(constant as i64));
                    s.append(c.as_str());
                } else {
                    let m = String::from_str(" + ");
                    s.append(m.as_str());
                    let c = crate::text::i64_string(constant as i64);
                    s.append(c.as_str());
                }
            } else {
                let c = crate::text::i64_string(constant as i64);
                s.append(c.as_str());
            }
        }
        proof {
            assert(s@ =~= poly_text(terms@, constant as int));
        }
        s
    }

    pub fn new(terms: Vec<(i32, u32)>, constant: i32) -> (q: Self)
        requires
            forall|k: int|
                0 <= k < terms@.len() ==> -0x80000000 <= ((#[trigger] terms@[k]).0 as int) * (
                terms@[k].1 as int) <= 0x7fffffff,
        ensures
            q.spec_terms() == terms@,
            q.spec_constant() == constant,
            q.spec_answer() == poly_text(derivative_of(terms@), 0),
    {
        let n = terms.len();
        let mut dterms: Vec<(i32, u32)> = Vec::new();
        let mut i: usize = 0;
        proof {
            assert(terms@.subrange(0, 0) =~= Seq::<(i32, u32)>::empty());
        }
        while i < n
            invariant
                n == terms@.len(),
                0 <= i <= n,
                forall|k: int|
                    0 <= k < terms@.len() ==> -0x80000000 <= ((#[trigger] terms@[k]).0 as int) * (
                    terms@[k].1 as int) <= 0x7fffffff,
                dterms@ == derivative_of(terms@.subrange(0, i as int)),
            decreases n - i,
        {
            let (coef, exp) = (terms[i].0, terms[i].1);
            proof {
                let cur = terms@.subrange(0, i as int + 1);
                assert(cur.drop_last() =~= terms@.subrange(0, i as int));
                assert(cur.last() == terms@[i as int]);
            }
            if exp > 0 {
                proof {
                    assert(-0x8000000000000000 <= (coef as int) * (exp as int)
                        <= 0x8000000000000000) by (nonlinear_arith)
                        requires
                            -0x80000000 <= (coef as int) && (coef as int) <= 0x7fffffff,
                            0 <= (exp as int) && (exp as int) <= 0xffffffff,
                    ;
                }
                let dcoef: i128 = (coef as i128) * (exp as i128);
                dterms.push(((dcoef as i32), exp - 1));
            }
            i = i + 1;
        }
        proof {
            assert(terms@.subrange(0, n as int) =~= terms@);
        }
        let answer_text = Self::format_polynomial(&dterms, 0);
        FirstDegreeDerivativeQuestion { terms, constant, answer_text }
    }

    pub fn random() -> (q: Self)
        ensures
            q.spec_terms().len() <= 3,
            forall|k: int|
                0 <= k < q.spec_terms().len() ==> -9 <= (#[trigger] q.spec_terms()[k]).0 <= 9 && (
                q.spec_terms()[k]).0 != 0 && 1 <= (q.spec_terms()[k]).1 <= 3,
            -10 <= q.spec_constant() <= 10,
            q.spec_answer() == poly_text(derivative_of(q.spec_terms()), 0),
    {
        let num_terms = rand_i64(1, 4);
        let mut terms: Vec<(i32, u32)> = Vec::new();
        let mut k: i64 = 0;
        while k < num_terms
            invariant
                0 <= k <= num_terms < 4,
                terms@.len() <= k,
                forall|j: int|
                    0 <= j < terms@.len() ==> -9 <= (#[trigger] terms@[j]).0 <= 9 && (
                    terms@[j]).0 != 0 && 1 <= (terms@[j]).1 <= 3,
            decreases num_terms - k,
        {
            let coefficient = rand_i64(-9, 10) as i32;
            if coefficient != 0 {
                let exponent = rand_i64(1, 4) as u32;
                terms.push((coefficient, exponent));
            }
            k = k + 1;
        }
        let constant: i32 = if rand_i64(0, 10) < 7 {
            rand_i64(-10, 11) as i32
        } else {
            0
        };
        proof {
            assert forall|j: int|
                0 <= j < terms@.len() implies -0x80000000 <= ((#[trigger] terms@[j]).0 as int) * (
            terms@[j].1 as int) <= 0x7fffffff by {
                let c = terms@[j].0 as int;
                let e = terms@[j].1 as int;
                assert(-27 <= c * e <= 27) by (nonlinear_arith)
                    requires
                        -9 <= c <= 9,
                        1 <= e <= 3,
                ;
            }
        }
        Self::new(terms, constant)
    }

    /// The polynomial the question shows.
    pub fn format_original(&self) -> (r: String)
        ensures
            r@ == poly_text(self.spec_terms(), self.spec_constant()),
    {
        Self::format_polynomial(&self.terms, self.constant)
    }
}

impl Question for FirstDegreeDerivativeQuestion {
    fn prompt(&self) -> (r: String)
        ensures
            r@ == "Beräkna f'(x): f(x) = "@ + poly_text(self.spec_terms(), self.spec_constant()),
    {
        let mut s = String::from_str("Beräkna f'(x): f(x) = ");
        let body = self.format_original();
        s.append(body.as_str());
        proof {
            assert(s@ =~= "Beräkna f'(x): f(x) = "@ + poly_text(
                self.spec_terms(),
                self.spec_constant(),
            ));
        }
        s
    }

    fn answer(&self) -> (r: &str)
        ensures
            r@ == self.spec_answer(),
    {
        self.answer_text.as_str()
    }

    fn check_answer(&self, answer: &str) -> (r: bool)
        ensures
            r == (strip_spaces(lower_of(trim_spec(answer@))) == strip_spaces(
                lower_of(self.spec_answer()),
            )),
    {
        let t = trim(answer);
        let low_user = to_lowercase_str(t.as_str());
        let low_expected = to_lowercase_str(self.answer_text.as_str());
        eq_modulo_spaces(low_user.as_str(), low_expected.as_str())
    }

    fn display(&self) -> (r: String)
        ensures
            r@ == "Beräkna f'(x): f(x) = "@ + poly_text(self.spec_terms(), self.spec_constant()),
    {
        self.prompt()
    }
}

} // verus!
