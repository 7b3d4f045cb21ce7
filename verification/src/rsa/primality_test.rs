//! Euclid's algorithm with Bezout coefficients, and a randomised primality
//! test.
use vstd::prelude::*;
use vstd::arithmetic::power::pow;
use vstd::arithmetic::div_mod::{lemma_fundamental_div_mod, lemma_mod_bound};
use crate::rsa::number_theory::{is_prime, lemma_prime_witness};
use crate::rsa::bignum::{
    Big, abs, trunc_div, trunc_rem, mod_floor, big_sub, big_mul, big_div, big_rem, big_eq,
    big_lt, big_low_bit, big_modpow, big_random_range,
};

verus! {

// ---------------------------------------------------------------------------
// Truncating division
// ---------------------------------------------------------------------------

/// Rust's `%` on integers: the remainder is smaller than the divisor in
/// magnitude and takes the sign of the dividend.
pub proof fn lemma_trunc_rem(a: int, b: int)
    requires
        b != 0,
    ensures
        abs(trunc_rem(a, b)) < abs(b),
        trunc_rem(a, b) == if a >= 0 {
            (abs(a) % abs(b)) as int
        } else {
            -((abs(a) % abs(b)) as int)
        },
        a >= 0 && b > 0 ==> trunc_div(a, b) == a / b && trunc_rem(a, b) == a % b,
{
    let x = abs(a) as int;
    let y = abs(b) as int;
    let q = x / y;
    let m = x % y;
    lemma_fundamental_div_mod(x, y);
    lemma_mod_bound(x, y);
    assert(q >= 0) by (nonlinear_arith)
        requires
            x >= 0,
            y > 0,
            x == y * q + m,
            m < y,
    ;
    assert(trunc_div(a, b) == if (a >= 0) == (b >= 0) { q } else { -q });
    if a >= 0 && b > 0 {
        assert(b * trunc_div(a, b) == y * q);
    } else if a >= 0 {
        assert(b * trunc_div(a, b) == y * q) by (nonlinear_arith)
            requires
                b == -y,
                trunc_div(a, b) == -q,
        ;
    } else if b > 0 {
        assert(b * trunc_div(a, b) == -(y * q)) by (nonlinear_arith)
            requires
                b == y,
                trunc_div(a, b) == -q,
        ;
    } else {
        assert(b * trunc_div(a, b) == -(y * q)) by (nonlinear_arith)
            requires
                b == -y,
                trunc_div(a, b) == q,
        ;
    }
}

// ---------------------------------------------------------------------------
// Extended Euclidean algorithm
// ---------------------------------------------------------------------------

/// Euclid's algorithm with Rust's truncating division, continued from the
/// remainders `ta`, `tb` whose coefficients are `(r1, r2)` and `(s1, s2)`:
/// the last nonzero remainder and its two coefficients.
pub open spec fn euclid_from(ta: int, tb: int, r1: int, r2: int, s1: int, s2: int) -> (
    int,
    int,
    int,
)
    decreases abs(tb),
{
    if tb == 0 {
        (ta, r1, r2)
    } else {
        proof {
            lemma_trunc_rem(ta, tb);
        }
        let q = trunc_div(ta, tb);
        euclid_from(tb, trunc_rem(ta, tb), s1, s2, r1 - q * s1, r2 - q * s2)
    }
}

/// `ext_euclid(a, b) == (g, x, y)`: Euclid's algorithm on `a` and `b` gives the
/// remainder `g`, and `a * x + b * y == g`.
pub open spec fn ext_euclid(a: int, b: int) -> (int, int, int) {
    euclid_from(a, b, 1, 0, 0, 1)
}

proof fn lemma_euclid_from_bezout(
    a: int,
    b: int,
    ta: int,
    tb: int,
    r1: int,
    r2: int,
    s1: int,
    s2: int,
)
    requires
        a * r1 + b * r2 == ta,
        a * s1 + b * s2 == tb,
    ensures
        ({
            let res = euclid_from(ta, tb, r1, r2, s1, s2);
            a * res.1 + b * res.2 == res.0
        }),
    decreases abs(tb),
{
    if tb != 0 {
        lemma_trunc_rem(ta, tb);
        let q = trunc_div(ta, tb);
        assert(a * (r1 - q * s1) + b * (r2 - q * s2) == ta - tb * q) by (nonlinear_arith)
            requires
                a * r1 + b * r2 == ta,
                a * s1 + b * s2 == tb,
        ;
        lemma_euclid_from_bezout(a, b, tb, trunc_rem(ta, tb), s1, s2, r1 - q * s1, r2 - q * s2);
    }
}

/// Bezout's identity for the coefficients that Euclid's algorithm finds:
/// `a * x + b * y == g` where `(g, x, y) == ext_euclid(a, b)`.
pub proof fn lemma_ext_euclid_bezout(a: int, b: int)
    ensures
        a * ext_euclid(a, b).1 + b * ext_euclid(a, b).2 == ext_euclid(a, b).0,
{
    lemma_euclid_from_bezout(a, b, a, b, 1, 0, 0, 1);
}

proof fn lemma_euclid_from_divides(ta: int, tb: int, r1: int, r2: int, s1: int, s2: int) -> (k: (
    int,
    int,
))
    requires
        ta >= 0,
        tb >= 0,
    ensures
        ({
            let g = euclid_from(ta, tb, r1, r2, s1, s2).0;
            &&& g >= 0
            &&& (ta > 0 || tb > 0) ==> g > 0
            &&& ta == g * k.0
            &&& tb == g * k.1
        }),
    decreases tb,
{
    if tb == 0 {
        assert(ta == ta * 1 && 0 == ta * 0) by (nonlinear_arith);
        (1, 0)
    } else {
        lemma_trunc_rem(ta, tb);
        let q = ta / tb;
        let m = ta % tb;
        lemma_fundamental_div_mod(ta, tb);
        let k = lemma_euclid_from_divides(tb, m, s1, s2, r1 - q * s1, r2 - q * s2);
        let g = euclid_from(ta, tb, r1, r2, s1, s2).0;
        assert(ta == g * (k.0 * q + k.1)) by (nonlinear_arith)
            requires
                ta == tb * q + m,
                tb == g * k.0,
                m == g * k.1,
        ;
        (k.0 * q + k.1, k.0)
    }
}

/// The remainder that Euclid's algorithm ends on divides both arguments,
/// for non-negative arguments, and is positive unless both are zero.
pub proof fn lemma_ext_euclid_divides(a: int, b: int) -> (k: (int, int))
    requires
        a >= 0,
        b >= 0,
    ensures
        ext_euclid(a, b).0 >= 0,
        (a > 0 || b > 0) ==> ext_euclid(a, b).0 > 0,
        a == ext_euclid(a, b).0 * k.0,
        b == ext_euclid(a, b).0 * k.1,
{
    lemma_euclid_from_divides(a, b, 1, 0, 0, 1)
}

/// The remainder that Euclid's algorithm ends on is the greatest common
/// divisor: every common divisor of `a` and `b` divides it.
pub proof fn lemma_ext_euclid_greatest(a: int, b: int, d: int, ka: int, kb: int) -> (k: int)
    requires
        a == d * ka,
        b == d * kb,
    ensures
        ext_euclid(a, b).0 == d * k,
{
    lemma_ext_euclid_bezout(a, b);
    let x = ext_euclid(a, b).1;
    let y = ext_euclid(a, b).2;
    assert(ext_euclid(a, b).0 == d * (ka * x + kb * y)) by (nonlinear_arith)
        requires
            a * x + b * y == ext_euclid(a, b).0,
            a == d * ka,
            b == d * kb,
    ;
    ka * x + kb * y
}

proof fn lemma_euclid_from_bound(big: int, ta: int, tb: int, r1: int, r2: int, s1: int, s2: int)
    requires
        ta >= tb >= 0,
        ta > 0,
        abs(r2) * tb + abs(s2) * ta == big,
        r2 * s2 <= 0,
        abs(r2) <= abs(s2),
    ensures
        abs(euclid_from(ta, tb, r1, r2, s1, s2).2) <= big,
    decreases tb,
{
    if tb == 0 {
        assert(abs(r2) <= big) by (nonlinear_arith)
            requires
                abs(r2) <= abs(s2),
                abs(s2) * ta == big,
                ta > 0,
        ;
    } else {
        lemma_trunc_rem(ta, tb);
        let q = ta / tb;
        let m = ta % tb;
        lemma_fundamental_div_mod(ta, tb);
        assert(q >= 1) by (nonlinear_arith)
            requires
                ta == tb * q + m,
                0 <= m < tb,
                ta >= tb,
        ;
        let n2 = r2 - q * s2;
        assert(abs(n2) == abs(r2) + q * abs(s2) && s2 * n2 <= 0) by (nonlinear_arith)
            requires
                r2 * s2 <= 0,
                abs(r2) <= abs(s2),
                q >= 1,
                n2 == r2 - q * s2,
        ;
        assert(abs(s2) * m + abs(n2) * tb == big) by (nonlinear_arith)
            requires
                abs(r2) * tb + abs(s2) * ta == big,
                ta == tb * q + m,
                abs(n2) == abs(r2) + q * abs(s2),
        ;
        assert(abs(s2) <= abs(n2)) by (nonlinear_arith)
            requires
                abs(n2) == abs(r2) + q * abs(s2),
                q >= 1,
        ;
        lemma_euclid_from_bound(big, tb, m, s1, s2, r1 - q * s1, n2);
    }
}

/// For `a >= b >= 0` with `a > 0`, the coefficient of `b` that Euclid's
/// algorithm finds is at most `a` in magnitude.
pub proof fn lemma_ext_euclid_bound(a: int, b: int)
    requires
        a >= b >= 0,
        a > 0,
    ensures
        abs(ext_euclid(a, b).2) <= a,
{
    assert(abs(0) * b + abs(1) * a == a) by (nonlinear_arith)
        requires
            abs(0) == 0,
            abs(1) == 1,
    ;
    lemma_euclid_from_bound(a, a, b, 1, 0, 0, 1);
}

// ---------------------------------------------------------------------------
// Executable functions
// ---------------------------------------------------------------------------

/// Exchanges two integers.
pub fn swap(a: &mut Big, b: &mut Big)
    ensures
        *final(a) == *old(b),
        *final(b) == *old(a),
{
    std::mem::swap(a, b);
}

/// Euclid's algorithm: orders `a` and `b` so that `a` is the larger, then
/// returns the last nonzero remainder `g` of `a` and `b` and leaves in `r` and
/// `s` the coefficients with `a * r + b * s == g`.
pub fn egcd(a: &mut Big, b: &mut Big, r: &mut Big, s: &mut Big) -> (g: Option<Big>)
    ensures
        final(a).value() == if old(a).value() < old(b).value() {
            old(b).value()
        } else {
            old(a).value()
        },
        final(b).value() == if old(a).value() < old(b).value() {
            old(a).value()
        } else {
            old(b).value()
        },
        g matches Some(x) && (x.value(), final(r).value(), final(s).value()) == ext_euclid(
            final(a).value(),
            final(b).value(),
        ),
{
    let flag = big_lt(a, b);
    if flag {
        swap(a, b);
    }
    let mut temp_a = a.copy();
    let mut temp_b = b.copy();
    let mut r1 = Big::from_u64(1);
    let mut r2 = Big::zero();
    let mut s1 = Big::zero();
    let mut s2 = Big::from_u64(1);
    let zero = Big::zero();
    while !big_eq(&temp_b, &zero)
        invariant
            zero.value() == 0,
            euclid_from(
                temp_a.value(),
                temp_b.value(),
                r1.value(),
                r2.value(),
                s1.value(),
                s2.value(),
            ) == ext_euclid(a.value(), b.value()),
        decreases abs(temp_b.value()),
    {
        proof {
            lemma_trunc_rem(temp_a.value(), temp_b.value());
        }
        let q = big_div(&temp_a, &temp_b);
        temp_a = big_rem(&temp_a, &temp_b);
        r1 = big_sub(&r1, &big_mul(&q, &s1));
        r2 = big_sub(&r2, &big_mul(&q, &s2));
        swap(&mut r1, &mut s1);
        swap(&mut r2, &mut s2);
        swap(&mut temp_a, &mut temp_b);
    }
    *r = r1;
    *s = r2;
    Some(temp_a)
}

/// Whether the witness `w` passes the test against the odd modulus `m`:
/// `w^(m-1) mod m` is 1 or `w - 1`.
pub open spec fn passes_witness(w: int, m: int) -> bool {
    let x = mod_floor(pow(w, (m - 1) as nat), m);
    x == 1 || x == w - 1
}

/// A witness that shares a factor `d > 1` with the modulus fails the test:
/// `w^(m-1) mod m` is then a multiple of `d`, so it is neither 1 nor `w - 1`.
/// So an odd composite `m` is rejected, for instance, by every multiple of
/// one of its prime factors.
pub proof fn lemma_shared_factor_fails(w: int, m: int, d: int)
    requires
        m > 2,
        w >= 1,
        d > 1,
        w % d == 0,
        m % d == 0,
    ensures
        !passes_witness(w, m),
        mod_floor(pow(w, (m - 1) as nat), m) % d == 0,
{
    let e = (m - 2) as nat;
    vstd::arithmetic::power::lemma_pow_adds(w, 1, e);
    vstd::arithmetic::power::lemma_pow1(w);
    let p = pow(w, (m - 1) as nat);
    assert(p == w * pow(w, e));
    lemma_fundamental_div_mod(w, d);
    lemma_fundamental_div_mod(m, d);
    let kw = w / d;
    let km = m / d;
    lemma_fundamental_div_mod(p, m);
    let x = p % m;
    let t = p / m;
    // x = p - m t = d (kw pow(w, e) - km t)
    assert(x == d * (kw * pow(w, e) - km * t)) by (nonlinear_arith)
        requires
            p == w * pow(w, e),
            w == d * kw + 0,
            m == d * km + 0,
            p == m * t + x,
    ;
    vstd::arithmetic::div_mod::lemma_mod_multiples_basic(kw * pow(w, e) - km * t, d);
    assert(x % d == 0) by (nonlinear_arith)
        requires
            x == d * (kw * pow(w, e) - km * t),
            ((kw * pow(w, e) - km * t) * d) % d == 0,
    ;
    assert(mod_floor(p, m) == x);
    // 1 and w - 1 are not multiples of d
    vstd::arithmetic::div_mod::lemma_small_mod(1, d as nat);
    assert((w - 1) % d == d - 1) by {
        assert(w - 1 == (kw - 1) * d + (d - 1)) by (nonlinear_arith)
            requires
                w == d * kw + 0,
        ;
        vstd::arithmetic::div_mod::lemma_fundamental_div_mod_converse(w - 1, d, kw - 1, d - 1);
    }
}

/// One round of the primality test of the odd `modulus` with the witness
/// `num`.
pub fn pass_miller_rabin(num: &Big, modulus: &Big) -> (r: bool)
    requires
        modulus.value() > 2,
        modulus.value() % 2 == 1,
    ensures
        r == passes_witness(num.value(), modulus.value()),
        r == (mod_floor(pow(num.value(), (modulus.value() - 1) as nat), modulus.value()) == 1
            || mod_floor(pow(num.value(), (modulus.value() - 1) as nat), modulus.value())
            == num.value() - 1),
{
    let one = Big::from_u64(1);
    let two = Big::from_u64(2);
    let phi = big_sub(modulus, &one);
    let mut odd = phi.copy();
    while big_eq(&big_low_bit(&odd), &one)
        invariant
            one.value() == 1,
            two.value() == 2,
            odd.value() == phi.value(),
            phi.value() == modulus.value() - 1,
            modulus.value() % 2 == 1,
        decreases abs(odd.value()),
    {
        odd = big_div(&odd, &two);
    }
    let mut base = big_modpow(num, &odd, modulus);
    let num_minus_one = big_sub(num, &one);
    while !big_lt(&phi, &odd)
        invariant
            one.value() == 1,
            two.value() == 2,
            phi.value() == modulus.value() - 1,
            modulus.value() > 2,
            num_minus_one.value() == num.value() - 1,
            odd.value() == phi.value() || odd.value() == 2 * phi.value(),
            odd.value() == phi.value() ==> base.value() == mod_floor(
                pow(num.value(), (modulus.value() - 1) as nat),
                modulus.value(),
            ),
            odd.value() == 2 * phi.value() ==> !passes_witness(num.value(), modulus.value()),
        decreases 2 * phi.value() - odd.value(),
    {
        if big_eq(&base, &one) || big_eq(&base, &num_minus_one) {
            return true;
        }
        base = big_modpow(&base, &two, modulus);
        odd = big_mul(&odd, &two);
    }
    false
}

/// The randomised primality test: an even `num` is rejected; an odd one is
/// tested against `times` witnesses drawn uniformly from `1..num - 1`, and
/// rejected at the first that fails.
pub fn miller_rabin(num: &Big, times: usize) -> (r: bool)
    requires
        num.value() % 2 == 0 || num.value() > 2,
    ensures
        r ==> num.value() % 2 == 1,
        num.value() % 2 == 1 && times == 0 ==> r,
        !r && num.value() % 2 == 1 ==> exists|w: int|
            1 <= w < num.value() - 1 && !#[trigger] passes_witness(w, num.value()),
        is_prime(num.value()) && num.value() > 2 ==> r,
{
    let one = Big::from_u64(1);
    if !big_eq(&big_low_bit(num), &one) {
        proof {
            if is_prime(num.value()) && num.value() > 2 {
                assert(num.value() % 2 != 0);
            }
        }
        return false;
    }
    let high = big_sub(num, &one);
    for _i in 0..times
        invariant
            one.value() == 1,
            high.value() == num.value() - 1,
            num.value() % 2 == 1,
            num.value() > 2,
    {
        let w = big_random_range(&one, &high);
        if !pass_miller_rabin(&w, num) {
            assert(!passes_witness(w.value(), num.value()));
            proof {
                if is_prime(num.value()) {
                    lemma_prime_witness(num.value(), w.value());
                }
            }
            return false;
        }
    }
    true
}

} // verus!
