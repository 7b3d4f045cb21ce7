//! The continued fraction of a ratio of integers, with quotients held as
//! 128-bit integers.
use vstd::prelude::*;
use vstd::arithmetic::div_mod::{lemma_fundamental_div_mod, lemma_mod_bound};
use crate::rsa::bignum::{Big, big_sub, big_mul, big_div, big_eq, big_to_u128};
use crate::rsa::attack::cf_tail;
use crate::rsa::primality_test::lemma_trunc_rem;

verus! {

/// `x` as a `u128`, for `x` in range.
fn to_u128(x: &Big) -> (r: u128)
    requires
        0 <= x.value() <= u128::MAX,
    ensures
        r == x.value(),
{
    match big_to_u128(x) {
        Some(v) => v,
        None => 0,
    }
}

/// The continued fraction of `numberator / denominator`, one quotient at a
/// time, each quotient a `u128`.
pub struct ContinuedFractionStream {
    numberator: Big,
    denominator: Big,
    quotients: Vec<u128>,
}

impl ContinuedFractionStream {
    /// The remainder still to expand is `numer_value() / denom_value()`.
    pub closed spec fn numer_value(&self) -> int {
        self.numberator.value()
    }

    pub closed spec fn denom_value(&self) -> int {
        self.denominator.value()
    }

    /// The quotients found so far.
    pub closed spec fn quotient_values(&self) -> Seq<u128> {
        self.quotients@
    }

    /// The remainder is below 1.
    pub open spec fn wf(&self) -> bool {
        0 <= self.numer_value() < self.denom_value()
    }

    /// The stream of `num / deno`, whose integer part must fit in a `u128`.
    pub fn new(num: Big, deno: Big) -> (r: ContinuedFractionStream)
        requires
            num.value() >= 0,
            deno.value() > 0,
            num.value() / deno.value() <= u128::MAX,
        ensures
            r.wf(),
            r.quotient_values() == seq![(num.value() / deno.value()) as u128],
            r.numer_value() == num.value() % deno.value(),
            r.denom_value() == deno.value(),
    {
        let f = big_div(&num, &deno);
        proof {
            lemma_trunc_rem(num.value(), deno.value());
            lemma_fundamental_div_mod(num.value(), deno.value());
            lemma_mod_bound(num.value(), deno.value());
            assert(f.value() >= 0) by (nonlinear_arith)
                requires
                    f.value() == num.value() / deno.value(),
                    num.value() >= 0,
                    deno.value() > 0,
            ;
        }
        let head_q = to_u128(&f);
        let numberator = big_sub(&num, &big_mul(&f, &deno));
        proof {
            assert(numberator.value() == num.value() % deno.value()) by (nonlinear_arith)
                requires
                    numberator.value() == num.value() - f.value() * deno.value(),
                    f.value() == num.value() / deno.value(),
                    num.value() == deno.value() * (num.value() / deno.value()) + num.value()
                        % deno.value(),
            ;
        }
        let mut v: Vec<u128> = Vec::new();
        v.push(head_q);
        ContinuedFractionStream { numberator, denominator: deno, quotients: v }
    }

    /// The next quotient `denominator / numberator`, after which the stream
    /// goes on with `numberator / (denominator % numberator)`; `None` once the
    /// remainder is 0. The quotient must fit in a `u128`.
    pub fn next(&mut self) -> (r: Option<u128>)
        requires
            old(self).wf(),
            old(self).numer_value() != 0 ==> old(self).denom_value() / old(self).numer_value()
                <= u128::MAX,
        ensures
            final(self).wf(),
            old(self).numer_value() == 0 ==> r is None && *final(self) == *old(self),
            old(self).numer_value() != 0 ==> (r matches Some(q) && {
                &&& q == old(self).denom_value() / old(self).numer_value()
                &&& final(self).quotient_values() == old(self).quotient_values().push(q)
                &&& final(self).numer_value() == old(self).denom_value() % old(self).numer_value()
                &&& final(self).denom_value() == old(self).numer_value()
            }),
    {
        let zero = Big::zero();
        if big_eq(&self.numberator, &zero) {
            return None;
        }
        let q = big_div(&self.denominator, &self.numberator);
        proof {
            let d = self.denom_value();
            let n = self.numer_value();
            lemma_trunc_rem(d, n);
            lemma_fundamental_div_mod(d, n);
            lemma_mod_bound(d, n);
            assert(q.value() >= 0) by (nonlinear_arith)
                requires
                    q.value() == d / n,
                    d >= 0,
                    n > 0,
            ;
        }
        let q128 = to_u128(&q);
        let r = big_sub(&self.denominator, &big_mul(&q, &self.numberator));
        proof {
            let d = self.denom_value();
            let n = self.numer_value();
            assert(r.value() == d % n) by (nonlinear_arith)
                requires
                    r.value() == d - q.value() * n,
                    q.value() == d / n,
                    d == n * (d / n) + d % n,
            ;
        }
        self.denominator = self.numberator.copy();
        self.numberator = r;
        self.quotients.push(q128);
        Some(q128)
    }

    /// The quotients found so far.
    pub fn quotients(&self) -> (r: &Vec<u128>)
        ensures
            r@ == self.quotient_values(),
    {
        &self.quotients
    }

    /// Runs the stream to its end; every quotient must fit in a `u128`.
    pub fn gen_all(&mut self) -> (r: &Self)
        requires
            old(self).wf(),
            forall|j: int|
                0 <= j < cf_tail(old(self).numer_value(), old(self).denom_value()).len()
                    ==> #[trigger] cf_tail(old(self).numer_value(), old(self).denom_value())[j]
                    <= u128::MAX,
        ensures
            *r == *final(self),
            final(self).wf(),
            final(self).numer_value() == 0,
            final(self).quotient_values().map_values(|q: u128| q as int) == old(
                self,
            ).quotient_values().map_values(|q: u128| q as int) + cf_tail(
                old(self).numer_value(),
                old(self).denom_value(),
            ),
    {
        loop
            invariant
                self.wf(),
                forall|j: int|
                    0 <= j < cf_tail(self.numer_value(), self.denom_value()).len()
                        ==> #[trigger] cf_tail(self.numer_value(), self.denom_value())[j]
                        <= u128::MAX,
                self.quotient_values().map_values(|q: u128| q as int) + cf_tail(
                    self.numer_value(),
                    self.denom_value(),
                ) == old(self).quotient_values().map_values(|q: u128| q as int) + cf_tail(
                    old(self).numer_value(),
                    old(self).denom_value(),
                ),
            ensures
                self.wf(),
                self.numer_value() == 0,
                self.quotient_values().map_values(|q: u128| q as int) == old(
                    self,
                ).quotient_values().map_values(|q: u128| q as int) + cf_tail(
                    old(self).numer_value(),
                    old(self).denom_value(),
                ),
            decreases self.numer_value(),
        {
            let ghost before = *self;
            proof {
                let n = before.numer_value();
                let d = before.denom_value();
                if n != 0 {
                    lemma_mod_bound(d, n);
                    assert(cf_tail(n, d)[0] == d / n);
                }
            }
            match self.next() {
                Some(_) => {
                    proof {
                        let n = before.numer_value();
                        let d = before.denom_value();
                        lemma_mod_bound(d, n);
                        let t = cf_tail(d % n, n);
                        assert(cf_tail(n, d) == seq![d / n] + t);
                        assert forall|j: int| 0 <= j < t.len() implies #[trigger] t[j]
                            <= u128::MAX by {
                            assert(t[j] == cf_tail(n, d)[j + 1]);
                        }
                        assert(before.quotient_values().map_values(|q: u128| q as int) + cf_tail(
                            n,
                            d,
                        ) =~= self.quotient_values().map_values(|q: u128| q as int) + t);
                    }
                },
                None => {
                    proof {
                        assert(cf_tail(0, self.denom_value()) =~= Seq::<int>::empty());
                        assert(self.quotient_values().map_values(|q: u128| q as int) + cf_tail(
                            0,
                            self.denom_value(),
                        ) =~= self.quotient_values().map_values(|q: u128| q as int));
                    }
                    break ;
                },
            }
        }
        self
    }
}

} // verus!
