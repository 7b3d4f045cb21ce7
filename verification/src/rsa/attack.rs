//! Attacks on weak RSA keys: Wiener's attack on a small private exponent,
//! through the continued fraction of `e / n`, and Fermat's factorisation of
//! a modulus whose primes are close.
use vstd::prelude::*;
use vstd::arithmetic::div_mod::{
    lemma_fundamental_div_mod, lemma_mod_bound, lemma_mod_multiples_basic,
};
use crate::rsa::bignum::{
    Big, abs, trunc_div, is_isqrt, isqrt, lowest_terms, lemma_isqrt_unique, big_add, big_sub,
    big_mul, big_div, big_eq, big_lt, big_sqrt, big_fraction_add,
};
use crate::rsa::key::{PrimePair, PrivateKey, key_params_ok, key_params_hold, private_exponent};
use crate::rsa::primality_test::lemma_trunc_rem;

verus! {

// ---------------------------------------------------------------------------
// Continued fractions
// ---------------------------------------------------------------------------

/// The values of a sequence of integers.
pub open spec fn big_values(s: Seq<Big>) -> Seq<int> {
    s.map_values(|b: Big| b.value())
}

/// The continued fraction quotients of `d / r` for `0 <= r < d`: `d / r`,
/// then those of `r / (d % r)`, until the remainder is 0.
pub open spec fn cf_tail(r: int, d: int) -> Seq<int>
    decreases r,
{
    if r <= 0 || d <= 0 {
        seq![]
    } else {
        proof {
            lemma_mod_bound(d, r);
        }
        seq![d / r] + cf_tail(d % r, r)
    }
}

/// The continued fraction expansion of `num / deno`: its integer part, then
/// the quotients of the rest.
pub open spec fn cf_expansion(num: int, deno: int) -> Seq<int> {
    seq![num / deno] + cf_tail(num % deno, deno)
}

/// `1 / (s[0] + 1 / (s[1] + ...))`, 0 for no quotients, as the numerator and
/// denominator that the recurrence gives.
pub open spec fn cf_fraction(s: Seq<int>) -> (int, int)
    decreases s.len(),
{
    if s.len() == 0 {
        (0, 1)
    } else {
        let nd = cf_fraction(s.drop_first());
        (nd.1, s[0] * nd.1 + nd.0)
    }
}

/// The convergent `s[0] + 1 / (s[1] + ... 1 / s[i - 1])` as numerator and
/// denominator.
pub open spec fn convergent(s: Seq<int>, i: int) -> (int, int) {
    let nd = cf_fraction(s.subrange(1, i));
    (s[0] * nd.1 + nd.0, nd.1)
}

/// Quotients that the expansion can take: none negative, and the last one
/// not zero.
pub open spec fn cf_quotients_ok(s: Seq<int>) -> bool {
    &&& forall|j: int| 0 <= j < s.len() ==> #[trigger] s[j] >= 0
    &&& s.len() > 0 ==> s[s.len() - 1] != 0
}

/// The fraction of good quotients has a positive denominator, a numerator
/// that is positive unless there are no quotients, and is in lowest terms:
/// `x`, `y` with `numerator * x + denominator * y == 1`.
proof fn lemma_cf_fraction(s: Seq<int>) -> (w: (int, int))
    requires
        cf_quotients_ok(s),
    ensures
        cf_fraction(s).1 > 0,
        cf_fraction(s).0 >= 0,
        s.len() > 0 ==> cf_fraction(s).0 > 0,
        cf_fraction(s).0 * w.0 + cf_fraction(s).1 * w.1 == 1,
    decreases s.len(),
{
    if s.len() == 0 {
        assert(cf_fraction(s) == (0int, 1int));
        assert(cf_fraction(s).0 * 0 + cf_fraction(s).1 * 1 == 1) by (nonlinear_arith)
            requires
                cf_fraction(s) == (0int, 1int),
        ;
        (0, 1)
    } else {
        let rest = s.drop_first();
        assert(cf_quotients_ok(rest)) by {
            assert forall|j: int| 0 <= j < rest.len() implies #[trigger] rest[j] >= 0 by {
                assert(rest[j] == s[j + 1]);
            }
            if rest.len() > 0 {
                assert(rest[rest.len() - 1] == s[s.len() - 1]);
            }
        }
        let v = lemma_cf_fraction(rest);
        let nd = cf_fraction(rest);
        assert(s[0] >= 0);
        assert(s[0] * nd.1 + nd.0 > 0) by (nonlinear_arith)
            requires
                s[0] >= 0,
                nd.1 > 0,
                nd.0 >= 0,
                s[0] != 0 || nd.0 > 0,
        ;
        assert(nd.1 * (v.1 - s[0] * v.0) + (s[0] * nd.1 + nd.0) * v.0 == 1) by (nonlinear_arith)
            requires
                nd.0 * v.0 + nd.1 * v.1 == 1,
        ;
        assert(cf_fraction(s) == (nd.1, s[0] * nd.1 + nd.0));
        let w = (v.1 - s[0] * v.0, v.0);
        assert(cf_fraction(s).0 * w.0 + cf_fraction(s).1 * w.1 == 1);
        w
    }
}

/// The quotients of `d / r` rebuild `r / d`: the fraction of
/// `cf_tail(r, d)` is `x / y` with `x * d == y * r`.
proof fn lemma_cf_tail_value(r: int, d: int)
    requires
        0 <= r < d,
    ensures
        cf_fraction(cf_tail(r, d)).0 * d == cf_fraction(cf_tail(r, d)).1 * r,
    decreases r,
{
    if r == 0 {
        assert(cf_tail(r, d) =~= Seq::<int>::empty());
        assert(cf_fraction(cf_tail(r, d)) == (0int, 1int));
        assert(cf_fraction(cf_tail(r, d)).0 * d == cf_fraction(cf_tail(r, d)).1 * r) by (
        nonlinear_arith)
            requires
                cf_fraction(cf_tail(r, d)) == (0int, 1int),
                r == 0,
        ;
    } else {
        lemma_mod_bound(d, r);
        lemma_fundamental_div_mod(d, r);
        lemma_cf_tail_value(d % r, r);
        let t = cf_tail(d % r, r);
        let s = cf_tail(r, d);
        assert(s == seq![d / r] + t);
        assert(s.drop_first() =~= t);
        let nd = cf_fraction(t);
        assert(cf_fraction(s) == (nd.1, (d / r) * nd.1 + nd.0));
        assert(nd.1 * d == ((d / r) * nd.1 + nd.0) * r) by (nonlinear_arith)
            requires
                nd.0 * r == nd.1 * (d % r),
                d == r * (d / r) + d % r,
        ;
        assert(cf_fraction(s).0 * d == cf_fraction(s).1 * r);
    }
}

/// The continued fraction expansion of `num / deno` rebuilds it: its last
/// convergent `k / d` has `k * deno == d * num`.
pub proof fn lemma_cf_expansion_value(num: int, deno: int)
    requires
        num >= 0,
        deno > 0,
    ensures
        ({
            let s = cf_expansion(num, deno);
            convergent(s, s.len() as int).0 * deno == convergent(s, s.len() as int).1 * num
        }),
{
    let s = cf_expansion(num, deno);
    lemma_mod_bound(num, deno);
    lemma_fundamental_div_mod(num, deno);
    lemma_cf_tail_value(num % deno, deno);
    let t = cf_tail(num % deno, deno);
    assert(s.subrange(1, s.len() as int) =~= t);
    let nd = cf_fraction(t);
    assert((num / deno * nd.1 + nd.0) * deno == nd.1 * num) by (nonlinear_arith)
        requires
            nd.0 * deno == nd.1 * (num % deno),
            num == deno * (num / deno) + num % deno,
    ;
}

/// A fraction in lowest terms is the only one of its value: where `a / b`
/// is in lowest terms, `c * x + d * y == 1`, `d > 0` and `a * d == c * b`,
/// then `a == c` and `b == d`.
proof fn lemma_lowest_terms_unique(a: int, b: int, c: int, d: int, x: int, y: int)
    requires
        lowest_terms(a, b),
        d > 0,
        c * x + d * y == 1,
        a * d == c * b,
    ensures
        a == c,
        b == d,
{
    let m = a * x + b * y;
    assert(b == d * m) by (nonlinear_arith)
        requires
            c * x + d * y == 1,
            a * d == c * b,
            m == a * x + b * y,
    ;
    assert(m > 0) by (nonlinear_arith)
        requires
            b == d * m,
            b > 0,
            d > 0,
    ;
    assert(a == c * m) by (nonlinear_arith)
        requires
            a * d == c * b,
            b == d * m,
            d > 0,
    ;
    if m > 1 {
        lemma_mod_multiples_basic(c, m);
        lemma_mod_multiples_basic(d, m);
        assert(a % m == 0 && b % m == 0) by (nonlinear_arith)
            requires
                a == c * m,
                b == d * m,
                (c * m) % m == 0,
                (d * m) % m == 0,
        ;
        assert(!(a % m == 0 && b % m == 0));
        assert(false);
    }
    assert(a == c && b == d) by (nonlinear_arith)
        requires
            m == 1,
            b == d * m,
            a == c * m,
    ;
}

/// A fraction `numer / denom` of non-negative integers.
#[derive(Debug)]
pub struct Fraction {
    pub numer: Big,
    pub denom: Big,
}

impl Fraction {
    /// `0 / 1`.
    pub fn zero() -> (r: Fraction)
        ensures
            r.numer.value() == 0,
            r.denom.value() == 1,
    {
        Fraction { numer: Big::zero(), denom: Big::from_u64(1) }
    }

    /// `x / 1`.
    pub fn from_integer(x: &Big) -> (r: Fraction)
        ensures
            r.numer.value() == x.value(),
            r.denom.value() == 1,
    {
        Fraction { numer: x.copy(), denom: Big::from_u64(1) }
    }

    /// `denom / numer` (for a nonzero fraction).
    pub fn recip(&self) -> (r: Fraction)
        requires
            self.numer.value() != 0,
        ensures
            r.numer.value() == self.denom.value(),
            r.denom.value() == self.numer.value(),
    {
        Fraction { numer: self.denom.copy(), denom: self.numer.copy() }
    }
}

/// `x + n / d` where `n / d` is the fraction of good quotients: the sum in
/// lowest terms, which is `(x * d + n) / d`.
fn add_integer_to_cf(x: &Big, f: &Fraction, Ghost(s): Ghost<Seq<int>>) -> (r: Fraction)
    requires
        x.value() >= 0,
        cf_quotients_ok(s),
        f.numer.value() == cf_fraction(s).0,
        f.denom.value() == cf_fraction(s).1,
    ensures
        r.numer.value() == x.value() * cf_fraction(s).1 + cf_fraction(s).0,
        r.denom.value() == cf_fraction(s).1,
{
    let head = Fraction::from_integer(x);
    let ghost w = lemma_cf_fraction(s);
    let (n, d) = big_fraction_add(&head.numer, &head.denom, &f.numer, &f.denom);
    proof {
        let nd = cf_fraction(s);
        let c = x.value() * nd.1 + nd.0;
        assert(c * w.0 + nd.1 * (w.1 - x.value() * w.0) == 1) by (nonlinear_arith)
            requires
                nd.0 * w.0 + nd.1 * w.1 == 1,
                c == x.value() * nd.1 + nd.0,
        ;
        assert(n.value() * nd.1 == c * d.value()) by (nonlinear_arith)
            requires
                n.value() * (1 * nd.1) == (x.value() * nd.1 + nd.0 * 1) * d.value(),
                c == x.value() * nd.1 + nd.0,
        ;
        lemma_lowest_terms_unique(n.value(), d.value(), c, nd.1, w.0, w.1 - x.value() * w.0);
    }
    Fraction { numer: n, denom: d }
}

/// `1 / (s[start] + 1 / (... + 1 / s[end - 1]))`, computed from the back.
fn expansion_range(slice: &[Big], start: usize, end: usize) -> (r: Fraction)
    requires
        start <= end <= slice@.len(),
        cf_quotients_ok(big_values(slice@).subrange(start as int, end as int)),
    ensures
        r.numer.value() == cf_fraction(big_values(slice@).subrange(start as int, end as int)).0,
        r.denom.value() == cf_fraction(big_values(slice@).subrange(start as int, end as int)).1,
    decreases end - start,
{
    let ghost s = big_values(slice@).subrange(start as int, end as int);
    if start == end {
        return Fraction::zero();
    }
    let ghost rest = big_values(slice@).subrange(start + 1, end as int);
    proof {
        assert(rest =~= s.drop_first());
        assert(cf_quotients_ok(rest)) by {
            assert forall|j: int| 0 <= j < rest.len() implies #[trigger] rest[j] >= 0 by {
                assert(rest[j] == s[j + 1]);
            }
            if rest.len() > 0 {
                assert(rest[rest.len() - 1] == s[s.len() - 1]);
            }
        }
        assert(s[0] == slice@[start as int].value());
        assert(s[0] >= 0);
    }
    let tail = expansion_range(slice, start + 1, end);
    let sum = add_integer_to_cf(&slice[start], &tail, Ghost(rest));
    proof {
        lemma_cf_fraction(s);
    }
    sum.recip()
}

/// `1 / (slice[0] + 1 / (slice[1] + ...))`, in lowest terms; 0 for no
/// quotients (a last quotient of 0 has no reciprocal and is refused).
pub fn expansion(slice: &[Big]) -> (r: Fraction)
    requires
        cf_quotients_ok(big_values(slice@)),
    ensures
        r.numer.value() == cf_fraction(big_values(slice@)).0,
        r.denom.value() == cf_fraction(big_values(slice@)).1,
{
    assert(big_values(slice@).subrange(0, slice@.len() as int) =~= big_values(slice@));
    expansion_range(slice, 0, slice.len())
}

/// The `i`-th convergent `slice[0] + 1 / (slice[1] + ... 1 / slice[i - 1])`
/// as numerator and denominator, in lowest terms.
pub fn expand_to_i(slice: &[Big], i: usize) -> (r: (Big, Big))
    requires
        1 <= i <= slice@.len(),
        slice@[0].value() >= 0,
        cf_quotients_ok(big_values(slice@).subrange(1, i as int)),
    ensures
        r.0.value() == convergent(big_values(slice@), i as int).0,
        r.1.value() == convergent(big_values(slice@), i as int).1,
{
    let tail = expansion_range(slice, 1, i);
    let res = add_integer_to_cf(&slice[0], &tail, Ghost(big_values(slice@).subrange(1, i as int)));
    (res.numer, res.denom)
}

// ---------------------------------------------------------------------------
// The stream of quotients
// ---------------------------------------------------------------------------

/// The continued fraction of `numberator / denominator`, one quotient at a
/// time.
pub struct ContinuedRatioStream {
    numberator: Big,
    denominator: Big,
    quotients: Vec<Big>,
}

impl ContinuedRatioStream {
    /// The remainder still to expand is `numer_value() / denom_value()`.
    pub closed spec fn numer_value(&self) -> int {
        self.numberator.value()
    }

    pub closed spec fn denom_value(&self) -> int {
        self.denominator.value()
    }

    /// The quotients found so far.
    pub closed spec fn quotient_values(&self) -> Seq<int> {
        big_values(self.quotients@)
    }

    /// The remainder is below 1, and the quotients are non-negative, all but
    /// the first at least 1.
    pub open spec fn wf(&self) -> bool {
        &&& 0 <= self.numer_value() < self.denom_value()
        &&& self.quotient_values().len() >= 1
        &&& self.quotient_values()[0] >= 0
        &&& forall|j: int|
            1 <= j < self.quotient_values().len() ==> #[trigger] self.quotient_values()[j] >= 1
    }

    /// The stream of `num / deno`: its integer part is the first quotient.
    pub fn new(num: &Big, deno: &Big) -> (r: ContinuedRatioStream)
        requires
            num.value() >= 0,
            deno.value() > 0,
        ensures
            r.wf(),
            r.quotient_values() == seq![num.value() / deno.value()],
            r.numer_value() == num.value() % deno.value(),
            r.denom_value() == deno.value(),
    {
        let f = big_div(num, deno);
        let numberator = big_sub(num, &big_mul(&f, deno));
        let denominator = deno.copy();
        proof {
            lemma_fundamental_div_mod(num.value(), deno.value());
            lemma_mod_bound(num.value(), deno.value());
            assert(f.value() >= 0) by (nonlinear_arith)
                requires
                    f.value() == num.value() / deno.value(),
                    num.value() >= 0,
                    deno.value() > 0,
            ;
        }
        let mut v: Vec<Big> = Vec::new();
        v.push(f);
        let r = ContinuedRatioStream { numberator, denominator, quotients: v };
        assert(r.quotient_values() =~= seq![num.value() / deno.value()]);
        r
    }

    /// The next quotient `denominator / numberator`, after which the stream
    /// goes on with `numberator / (denominator % numberator)`; `None` once the
    /// remainder is 0.
    pub fn next(&mut self) -> (r: Option<Big>)
        requires
            old(self).wf(),
        ensures
            final(self).wf(),
            old(self).numer_value() == 0 ==> r is None && *final(self) == *old(self),
            old(self).numer_value() != 0 ==> (r matches Some(q) && {
                &&& q.value() == old(self).denom_value() / old(self).numer_value()
                &&& final(self).quotient_values() == old(self).quotient_values().push(q.value())
                &&& final(self).numer_value() == old(self).denom_value() % old(self).numer_value()
                &&& final(self).denom_value() == old(self).numer_value()
            }),
    {
        let zero = Big::zero();
        if big_eq(&self.numberator, &zero) {
            return None;
        }
        let q = big_div(&self.denominator, &self.numberator);
        let r = big_sub(&self.denominator, &big_mul(&q, &self.numberator));
        proof {
            let d = self.denom_value();
            let n = self.numer_value();
            lemma_fundamental_div_mod(d, n);
            lemma_mod_bound(d, n);
            lemma_trunc_rem(d, n);
            assert(r.value() == d % n) by (nonlinear_arith)
                requires
                    r.value() == d - q.value() * n,
                    q.value() == d / n,
                    d == n * (d / n) + d % n,
            ;
            assert(q.value() >= 1) by (nonlinear_arith)
                requires
                    q.value() == d / n,
                    d == n * (d / n) + d % n,
                    0 <= d % n < n,
                    n < d,
            ;
        }
        self.denominator = self.numberator.copy();
        self.numberator = r;
        let ghost old_q = self.quotient_values();
        self.quotients.push(q.copy());
        assert(self.quotient_values() =~= old_q.push(q.value()));
        Some(q)
    }

    /// The quotients found so far.
    pub fn quotients(&self) -> (r: &Vec<Big>)
        ensures
            big_values(r@) == self.quotient_values(),
    {
        &self.quotients
    }

    /// Runs the stream to its end: the quotients are then the whole
    /// expansion.
    pub fn gen_all(&mut self) -> (r: &Self)
        requires
            old(self).wf(),
        ensures
            *r == *final(self),
            final(self).wf(),
            final(self).numer_value() == 0,
            final(self).quotient_values() == old(self).quotient_values() + cf_tail(
                old(self).numer_value(),
                old(self).denom_value(),
            ),
    {
        loop
            invariant
                self.wf(),
                self.quotient_values() + cf_tail(self.numer_value(), self.denom_value())
                    == old(self).quotient_values() + cf_tail(
                    old(self).numer_value(),
                    old(self).denom_value(),
                ),
            ensures
                self.wf(),
                self.numer_value() == 0,
                self.quotient_values() == old(self).quotient_values() + cf_tail(
                    old(self).numer_value(),
                    old(self).denom_value(),
                ),
            decreases self.numer_value(),
        {
            let ghost before = *self;
            match self.next() {
                Some(_) => {
                    proof {
                        let n = before.numer_value();
                        let d = before.denom_value();
                        lemma_mod_bound(d, n);
                        assert(cf_tail(n, d) == seq![d / n] + cf_tail(d % n, n));
                        assert(before.quotient_values() + cf_tail(n, d) =~= self.quotient_values()
                            + cf_tail(self.numer_value(), self.denom_value()));
                    }
                },
                None => {
                    proof {
                        assert(cf_tail(0, self.denom_value()) =~= Seq::<int>::empty());
                        assert(self.quotient_values() + cf_tail(0, self.denom_value())
                            =~= self.quotient_values());
                    }
                    break ;
                },
            }
        }
        self
    }
}

// ---------------------------------------------------------------------------
// Wiener's attack
// ---------------------------------------------------------------------------

/// The roots of `a * x^2 + b * x + c` as the attack computes them: with
/// the integer square root of the discriminant and division rounding
/// towards zero; `(0, 0)` for a negative discriminant.
pub open spec fn quadratic_roots(a: int, b: int, c: int) -> (int, int) {
    let disc = b * b - 4 * a * c;
    if disc < 0 {
        (0, 0)
    } else {
        (trunc_div(-b + isqrt(disc), 2), trunc_div(-b - isqrt(disc), 2))
    }
}

/// The candidate factors from the `i`-th convergent `k / d` of `e / n`: the
/// roots of `x^2 - (n - phi + 1) x + n` for `phi = (e * d - 1) / k`.
pub open spec fn wiener_candidate(e: int, n: int, qs: Seq<int>, i: int) -> (int, int) {
    let kd = convergent(qs, i);
    let phi = trunc_div(e * kd.1 - 1, kd.0);
    quadratic_roots(1, n - phi + 1, n)
}

/// The search from the `i`-th convergent on, `last` being the candidates of
/// the one before: the first candidates whose product is `n`, made
/// non-negative, or the last candidates tried.
pub open spec fn wiener_from(e: int, n: int, qs: Seq<int>, i: int, last: (int, int)) -> (
    int,
    int,
)
    decreases qs.len() - i,
{
    if i >= qs.len() {
        last
    } else {
        let pq = wiener_candidate(e, n, qs, i);
        if pq.0 * pq.1 == n {
            (abs(pq.0) as int, abs(pq.1) as int)
        } else {
            wiener_from(e, n, qs, i + 1, pq)
        }
    }
}

/// The prime pair that Wiener's attack finds for the public key `(e, n)`.
pub open spec fn wiener_factors(e: int, n: int) -> (int, int) {
    wiener_from(e, n, cf_expansion(e, n), 2, (0, 0))
}

/// The roots of `a * x^2 + b * x + c`, rounded towards zero; `(0, 0)` where
/// there are none.
pub fn solve_quadratic(a: &Big, b: &Big, c: &Big) -> (r: (Big, Big))
    ensures
        (r.0.value(), r.1.value()) == quadratic_roots(a.value(), b.value(), c.value()),
{
    let zero = Big::zero();
    let four = Big::from_u64(4);
    let two = Big::from_u64(2);
    let b4ac = big_sub(&big_mul(b, b), &big_mul(&big_mul(&four, a), c));
    assert(b4ac.value() == b.value() * b.value() - 4 * a.value() * c.value()) by (nonlinear_arith)
        requires
            b4ac.value() == b.value() * b.value() - (4 * a.value()) * c.value(),
    ;
    if big_lt(&b4ac, &zero) {
        return (Big::zero(), Big::zero());
    }
    let minus_b = big_sub(&zero, b);
    let root = big_sqrt(&b4ac);
    proof {
        lemma_isqrt_unique(root.value(), b4ac.value());
    }
    let temp_p = big_div(&big_add(&minus_b, &root), &two);
    let temp_q = big_div(&big_sub(&minus_b, &root), &two);
    (temp_p, temp_q)
}

/// `|x|`.
fn big_abs(x: &Big) -> (r: Big)
    ensures
        r.value() == abs(x.value()),
{
    let zero = Big::zero();
    if big_lt(x, &zero) {
        big_sub(&zero, x)
    } else {
        x.copy()
    }
}

/// The factors that Wiener's attack finds for the public key `(e, n)`: the
/// convergents `k / d` of `e / n` are tried in turn from the second on, and
/// the first whose quadratic gives factors of `n` wins.
pub fn wiener_search(e: &Big, n: &Big) -> (r: (Big, Big))
    requires
        e.value() >= 0,
        n.value() > 0,
    ensures
        (r.0.value(), r.1.value()) == wiener_factors(e.value(), n.value()),
{
    let mut ps = ContinuedRatioStream::new(e, n);
    ps.gen_all();
    let ghost qs = cf_expansion(e.value(), n.value());
    assert(ps.quotient_values() =~= qs);
    let length: usize = ps.quotients().len();
    let one = Big::from_u64(1);
    let mut p = Big::zero();
    let mut q = Big::zero();
    let mut found = false;
    let mut i: usize = 2;
    while i < length && !found
        invariant
            ps.wf(),
            ps.quotient_values() == qs,
            qs == cf_expansion(e.value(), n.value()),
            length == qs.len(),
            one.value() == 1,
            2 <= i,
            n.value() > 0,
            e.value() >= 0,
            !found ==> wiener_from(e.value(), n.value(), qs, i as int, (p.value(), q.value()))
                == wiener_factors(e.value(), n.value()),
            found ==> (p.value(), q.value()) == wiener_factors(e.value(), n.value()),
        decreases length - i, if found { 0int } else { 1int },
    {
        let quotients = ps.quotients();
        proof {
            let s = qs.subrange(1, i as int);
            assert forall|j: int| 0 <= j < s.len() implies #[trigger] s[j] >= 0 by {
                assert(s[j] == qs[j + 1]);
            }
            assert(s[s.len() - 1] == qs[i - 1]);
        }
        let radio = expand_to_i(quotients.as_slice(), i);
        let k = radio.0;
        let d = radio.1;
        proof {
            let s = qs.subrange(1, i as int);
            lemma_cf_fraction(s);
            assert(k.value() > 0) by (nonlinear_arith)
                requires
                    k.value() == qs[0] * cf_fraction(s).1 + cf_fraction(s).0,
                    qs[0] >= 0,
                    cf_fraction(s).1 > 0,
                    cf_fraction(s).0 > 0,
            ;
        }
        let phi_n = big_div(&big_sub(&big_mul(e, &d), &one), &k);
        let a = Big::from_u64(1);
        let b = big_add(&big_sub(n, &phi_n), &one);
        let c = n.copy();
        let pair = solve_quadratic(&a, &b, &c);
        p = pair.0;
        q = pair.1;
        if big_eq(&big_mul(&p, &q), n) {
            p = big_abs(&p);
            q = big_abs(&q);
            found = true;
        } else {
            i = i + 1;
        }
    }
    (p, q)
}

/// Wiener's attack: the private key for the public key `(e, n)` built from
/// the factors that `wiener_search` finds; `None` exactly where those factors
/// make no key (`key_params_ok` fails). For instance, for
/// `n = 3351434899016066636045491452890486808714908934340001357148989` and
/// `e = 568760665726569109874762046085236437330350817075710631256941` no
/// convergent gives factors, the search ends on `(0, 0)`, and the result is
/// `None`: no key that keeps `e` can be recovered there.
pub fn pr_d_too_small(e: Big, n: Big) -> (r: Option<PrivateKey>)
    requires
        e.value() >= 0,
        n.value() > 0,
    ensures
        ({
            let pq = wiener_factors(e.value(), n.value());
            let phi = (pq.0 - 1) * (pq.1 - 1);
            &&& r is Some <==> key_params_ok(e.value(), phi)
            &&& r matches Some(k) ==> {
                &&& k.pair().p_value() == pq.0
                &&& k.pair().q_value() == pq.1
                &&& k.e_value() == e.value()
                &&& k.d_value() == private_exponent(e.value(), phi)
                &&& k.n_value() == pq.0 * pq.1
            }
        }),
{
    let (p, q) = wiener_search(&e, &n);
    let pair = PrimePair::from_p_q(p, q);
    if key_params_hold(&e, &pair.phi_p()) {
        Some(PrivateKey::new(pair, e))
    } else {
        None
    }
}

// ---------------------------------------------------------------------------
// Fermat's factorisation
// ---------------------------------------------------------------------------

/// The factors that Fermat's method tries for `n`: `a - x` and `a + x` with
/// `a` one above the integer square root of `n` and `x` the integer square
/// root of `a^2 - n`.
pub open spec fn fermat_factors(n: int) -> (int, int) {
    let a = isqrt(n) + 1;
    let x = isqrt(a * a - n);
    (a - x, a + x)
}

/// Where `a^2 - n` is a square, Fermat's factors multiply to `n`.
pub proof fn lemma_fermat_factors(n: int)
    requires
        n >= 0,
        isqrt(
            (isqrt(n) + 1) * (isqrt(n) + 1) - n,
        ) * isqrt((isqrt(n) + 1) * (isqrt(n) + 1) - n) == (isqrt(n) + 1) * (isqrt(n) + 1) - n,
    ensures
        fermat_factors(n).0 * fermat_factors(n).1 == n,
{
    let a = isqrt(n) + 1;
    let x = isqrt(a * a - n);
    assert((a - x) * (a + x) == a * a - x * x) by (nonlinear_arith);
}

/// Fermat's factorisation of a modulus whose primes are close.
pub fn p_q_close(n: &Big) -> (r: (Big, Big))
    requires
        n.value() >= 0,
    ensures
        (r.0.value(), r.1.value()) == fermat_factors(n.value()),
{
    let sqrt_n = big_sqrt(n);
    proof {
        lemma_isqrt_unique(sqrt_n.value(), n.value());
    }
    let a = big_add(&sqrt_n, &Big::from_u64(1));
    let sq = big_sub(&big_mul(&a, &a), n);
    proof {
        assert(sq.value() >= 0) by (nonlinear_arith)
            requires
                is_isqrt(sqrt_n.value(), n.value()),
                a.value() == sqrt_n.value() + 1,
                sq.value() == a.value() * a.value() - n.value(),
        ;
    }
    let x = big_sqrt(&sq);
    proof {
        lemma_isqrt_unique(x.value(), sq.value());
    }
    let p = big_sub(&a, &x);
    let q = big_add(&a, &x);
    (p, q)
}

} // verus!
