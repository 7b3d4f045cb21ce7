//! Primes, binomial coefficients and Fermat's little theorem: what RSA and
//! the primality test rest on.
use vstd::prelude::*;
use vstd::arithmetic::power::{pow, lemma_pow0, lemma_pow1, lemma_pow_adds};
use vstd::arithmetic::div_mod::{
    lemma_fundamental_div_mod, lemma_mod_bound, lemma_mod_multiples_basic,
    lemma_mul_mod_noop_left, lemma_mod_multiples_vanish, lemma_small_mod,
    lemma_fundamental_div_mod_converse,
};
use crate::rsa::primality_test::{ext_euclid, lemma_ext_euclid_bezout, lemma_ext_euclid_divides};

verus! {

/// `p` is prime: above 1, and no integer strictly between 1 and `p` divides
/// it.
pub open spec fn is_prime(p: int) -> bool {
    &&& p > 1
    &&& forall|k: int| 1 < k < p ==> #[trigger] (p % k) != 0
}

/// `m` divides `x`, with the quotient as witness: `x == m * (x / m)`.
proof fn lemma_divides_witness(x: int, m: int)
    requires
        m > 0,
        x % m == 0,
    ensures
        x == m * (x / m),
{
    lemma_fundamental_div_mod(x, m);
}

/// A multiple of `m` leaves no remainder.
proof fn lemma_multiple_mod(m: int, k: int)
    requires
        m > 0,
    ensures
        (m * k) % m == 0,
{
    lemma_mod_multiples_basic(k, m);
    assert(k * m == m * k) by (nonlinear_arith);
}

/// Euclid's lemma: a prime that divides a product divides one of its
/// factors.
pub proof fn lemma_prime_divides_product(p: int, a: int, b: int)
    requires
        is_prime(p),
        (a * b) % p == 0,
    ensures
        a % p == 0 || b % p == 0,
{
    if a % p != 0 {
        let r = a % p;
        lemma_mod_bound(a, p);
        let res = ext_euclid(p, r);
        let g = res.0;
        lemma_ext_euclid_bezout(p, r);
        let k = lemma_ext_euclid_divides(p, r);
        assert(g <= r) by (nonlinear_arith)
            requires
                r == g * k.1,
                r > 0,
                g > 0,
        ;
        if g > 1 {
            lemma_multiple_mod(g, k.0);
            assert(p % g == 0);
            assert(false);
        }
        // p * x + r * y == 1, and p divides r * b
        lemma_mul_mod_noop_left(a, b, p);
        lemma_divides_witness(r * b, p);
        let t = (r * b) / p;
        let w = b * res.1 + t * res.2;
        assert(b == p * w) by (nonlinear_arith)
            requires
                p * res.1 + r * res.2 == 1,
                r * b == p * t,
                w == b * res.1 + t * res.2,
        ;
        lemma_multiple_mod(p, w);
    }
}

/// Two distinct primes that divide `x` divide it together.
pub proof fn lemma_two_primes_divide(p: int, q: int, x: int)
    requires
        is_prime(p),
        is_prime(q),
        p != q,
        x % p == 0,
        x % q == 0,
    ensures
        x % (p * q) == 0,
{
    lemma_divides_witness(x, p);
    let j = x / p;
    lemma_prime_divides_product(q, p, j);
    if p % q == 0 {
        if q > p {
            lemma_small_mod(p as nat, q as nat);
        }
        assert(false);
    }
    lemma_divides_witness(j, q);
    let l = j / q;
    assert(x == (p * q) * l) by (nonlinear_arith)
        requires
            x == p * j,
            j == q * l,
    ;
    assert(p * q > 0) by (nonlinear_arith)
        requires
            p > 1,
            q > 1,
    ;
    lemma_multiple_mod(p * q, l);
}

// ---------------------------------------------------------------------------
// Binomial coefficients
// ---------------------------------------------------------------------------

/// The binomial coefficient `n` choose `k`, by Pascal's rule.
pub open spec fn binom(n: nat, k: nat) -> nat
    decreases n,
{
    if k == 0 {
        1
    } else if n == 0 {
        0
    } else {
        binom((n - 1) as nat, (k - 1) as nat) + binom((n - 1) as nat, k)
    }
}

proof fn lemma_binom_above(n: nat, k: nat)
    requires
        k > n,
    ensures
        binom(n, k) == 0,
    decreases n,
{
    if n > 0 {
        lemma_binom_above((n - 1) as nat, (k - 1) as nat);
        lemma_binom_above((n - 1) as nat, k);
    }
}

proof fn lemma_binom_diagonal(n: nat)
    ensures
        binom(n, n) == 1,
    decreases n,
{
    if n > 0 {
        lemma_binom_diagonal((n - 1) as nat);
        lemma_binom_above((n - 1) as nat, n);
    }
}

/// `k * (n choose k) == n * ((n - 1) choose (k - 1))`.
proof fn lemma_binom_absorb(n: nat, k: nat)
    requires
        n >= 1,
        k >= 1,
    ensures
        k * binom(n, k) == n * binom((n - 1) as nat, (k - 1) as nat),
    decreases n,
{
    if n == 1 {
        assert(binom(1, k) == binom(0, (k - 1) as nat) + binom(0, k));
        if k > 1 {
            lemma_binom_above(0, (k - 1) as nat);
            lemma_binom_above(0, k);
            assert(k * binom(1, k) == 1 * binom(0, (k - 1) as nat)) by (nonlinear_arith)
                requires
                    binom(1, k) == 0,
                    binom(0, (k - 1) as nat) == 0,
            ;
        } else {
            assert(binom(0, 0) == 1);
            assert(binom(0, 1) == 0);
        }
    } else {
        let n1 = (n - 1) as nat;
        let n2 = (n - 2) as nat;
        lemma_binom_absorb(n1, k);
        if k == 1 {
            assert(binom(n, 1) == binom(n1, 0) + binom(n1, 1));
            assert(binom(n1, 0) == 1 && binom(n2, 0) == 1);
            assert(k * binom(n, k) == n * binom(n1, 0)) by (nonlinear_arith)
                requires
                    k == 1,
                    binom(n, 1) == binom(n1, 0) + binom(n1, 1),
                    binom(n1, 0) == 1,
                    binom(n2, 0) == 1,
                    1 * binom(n1, 1) == n1 * binom(n2, 0),
                    n1 == n - 1,
            ;
        } else {
            let k1 = (k - 1) as nat;
            let k2 = (k - 2) as nat;
            lemma_binom_absorb(n1, k1);
            assert(binom(n, k) == binom(n1, k1) + binom(n1, k));
            assert(binom(n1, k1) == binom(n2, k2) + binom(n2, k1));
            assert(k * binom(n, k) == n * binom(n1, k1)) by (nonlinear_arith)
                requires
                    binom(n, k) == binom(n1, k1) + binom(n1, k),
                    binom(n1, k1) == binom(n2, k2) + binom(n2, k1),
                    k * binom(n1, k) == n1 * binom(n2, k1),
                    k1 * binom(n1, k1) == n1 * binom(n2, k2),
                    k1 == k - 1,
                    n1 == n - 1,
            ;
        }
    }
}

/// A prime divides every binomial coefficient of it but the first and the
/// last.
proof fn lemma_prime_divides_binom(p: nat, k: nat)
    requires
        is_prime(p as int),
        0 < k < p,
    ensures
        (binom(p, k) as int) % (p as int) == 0,
{
    lemma_binom_absorb(p, k);
    let c = binom((p - 1) as nat, (k - 1) as nat);
    lemma_multiple_mod(p as int, c as int);
    assert(((k * binom(p, k)) as int) % (p as int) == 0);
    lemma_prime_divides_product(p as int, k as int, binom(p, k) as int);
    lemma_small_mod(k, p);
}

/// `sum_{j <= m} (n choose j) a^j`.
pub open spec fn binom_sum(n: nat, a: int, m: nat) -> int
    decreases m,
{
    if m == 0 {
        binom(n, 0) * pow(a, 0)
    } else {
        binom_sum(n, a, (m - 1) as nat) + binom(n, m) * pow(a, m)
    }
}

proof fn lemma_pow_succ(a: int, m: nat)
    ensures
        pow(a, m + 1) == a * pow(a, m),
{
    lemma_pow_adds(a, 1, m);
    lemma_pow1(a);
}

proof fn lemma_binom_sum_pascal(n: nat, a: int, m: nat)
    requires
        m >= 1,
    ensures
        binom_sum(n + 1, a, m) == binom_sum(n, a, m) + a * binom_sum(n, a, (m - 1) as nat),
    decreases m,
{
    let m1 = (m - 1) as nat;
    lemma_pow0(a);
    lemma_pow_succ(a, m1);
    assert(binom((n + 1) as nat, m) == binom(n, m1) + binom(n, m));
    if m == 1 {
        assert(binom_sum(n + 1, a, 1) == binom_sum(n + 1, a, 0) + binom((n + 1) as nat, 1) * pow(
            a,
            1,
        ));
        assert(binom_sum(n + 1, a, 0) == binom((n + 1) as nat, 0) * pow(a, 0));
        assert(binom_sum(n, a, 1) == binom_sum(n, a, 0) + binom(n, 1) * pow(a, 1));
        assert(binom_sum(n, a, 0) == binom(n, 0) * pow(a, 0));
        assert(binom((n + 1) as nat, 0) == 1 && binom(n, 0) == 1);
        assert(binom_sum(n + 1, a, 1) == binom_sum(n, a, 1) + a * binom_sum(n, a, 0)) by (
        nonlinear_arith)
            requires
                binom_sum(n + 1, a, 1) == binom((n + 1) as nat, 0) * pow(a, 0) + binom(
                    (n + 1) as nat,
                    1,
                ) * pow(a, 1),
                binom_sum(n, a, 1) == binom(n, 0) * pow(a, 0) + binom(n, 1) * pow(a, 1),
                binom_sum(n, a, 0) == binom(n, 0) * pow(a, 0),
                binom((n + 1) as nat, 1) == binom(n, 0) + binom(n, 1),
                binom((n + 1) as nat, 0) == 1,
                binom(n, 0) == 1,
                pow(a, 0) == 1,
                pow(a, 1) == a * pow(a, 0),
        ;
    } else {
        let m2 = (m - 2) as nat;
        lemma_binom_sum_pascal(n, a, m1);
        assert(binom_sum(n + 1, a, m) == binom_sum(n, a, m) + a * binom_sum(n, a, m1)) by (
        nonlinear_arith)
            requires
                binom_sum(n + 1, a, m) == binom_sum(n + 1, a, m1) + binom((n + 1) as nat, m)
                    * pow(a, m),
                binom_sum(n + 1, a, m1) == binom_sum(n, a, m1) + a * binom_sum(n, a, m2),
                binom((n + 1) as nat, m) == binom(n, m1) + binom(n, m),
                binom_sum(n, a, m) == binom_sum(n, a, m1) + binom(n, m) * pow(a, m),
                binom_sum(n, a, m1) == binom_sum(n, a, m2) + binom(n, m1) * pow(a, m1),
                pow(a, m) == a * pow(a, m1),
        ;
    }
}

/// The binomial theorem for `(a + 1)^n`.
pub proof fn lemma_binomial(n: nat, a: int)
    ensures
        pow(a + 1, n) == binom_sum(n, a, n),
    decreases n,
{
    lemma_pow0(a);
    lemma_pow0(a + 1);
    if n > 0 {
        let n1 = (n - 1) as nat;
        lemma_binomial(n1, a);
        lemma_binom_sum_pascal(n1, a, n);
        lemma_binom_above(n1, n);
        lemma_pow_succ(a + 1, n1);
        assert(binom_sum(n1, a, n) == binom_sum(n1, a, n1) + binom(n1, n) * pow(a, n));
        assert(pow(a + 1, n) == binom_sum(n, a, n)) by (nonlinear_arith)
            requires
                binom_sum(n, a, n) == binom_sum(n1, a, n) + a * binom_sum(n1, a, n1),
                binom_sum(n1, a, n) == binom_sum(n1, a, n1) + 0 * pow(a, n),
                pow(a + 1, n1) == binom_sum(n1, a, n1),
                pow(a + 1, n) == (a + 1) * pow(a + 1, n1),
        ;
    }
}

/// For a prime `p`, every term of the binomial sum but the first and the
/// last is a multiple of `p`: the sum up to `m < p` is 1 plus a multiple.
proof fn lemma_binom_sum_prime(p: nat, a: int, m: nat) -> (t: int)
    requires
        is_prime(p as int),
        m < p,
    ensures
        binom_sum(p, a, m) == 1 + (p as int) * t,
    decreases m,
{
    lemma_pow0(a);
    if m == 0 {
        0
    } else {
        let t0 = lemma_binom_sum_prime(p, a, (m - 1) as nat);
        lemma_prime_divides_binom(p, m);
        lemma_divides_witness(binom(p, m) as int, p as int);
        let c = (binom(p, m) as int) / (p as int);
        let t = t0 + c * pow(a, m);
        assert(binom_sum(p, a, m) == 1 + (p as int) * t) by (nonlinear_arith)
            requires
                binom_sum(p, a, m) == binom_sum(p, a, (m - 1) as nat) + binom(p, m) * pow(a, m),
                binom_sum(p, a, (m - 1) as nat) == 1 + (p as int) * t0,
                binom(p, m) == (p as int) * c,
                t == t0 + c * pow(a, m),
        ;
        t
    }
}

/// Fermat's little theorem: `a^p` is `a` plus a multiple of the prime `p`.
pub proof fn lemma_fermat(p: nat, a: nat) -> (t: int)
    requires
        is_prime(p as int),
    ensures
        pow(a as int, p) == a + (p as int) * t,
    decreases a,
{
    if a == 0 {
        lemma_pow_succ(0, (p - 1) as nat);
        0
    } else {
        let b = (a - 1) as int;
        let t0 = lemma_fermat(p, (a - 1) as nat);
        lemma_binomial(p, b);
        let t1 = lemma_binom_sum_prime(p, b, (p - 1) as nat);
        lemma_binom_diagonal(p);
        assert(binom_sum(p, b, p) == binom_sum(p, b, (p - 1) as nat) + binom(p, p) * pow(b, p));
        let t = t0 + t1;
        assert(pow(a as int, p) == a + (p as int) * t) by (nonlinear_arith)
            requires
                pow(b + 1, p) == binom_sum(p, b, p),
                binom_sum(p, b, p) == binom_sum(p, b, (p - 1) as nat) + 1 * pow(b, p),
                binom_sum(p, b, (p - 1) as nat) == 1 + (p as int) * t1,
                pow(b, p) == b + (p as int) * t0,
                b == a - 1,
                t == t0 + t1,
        ;
        t
    }
}

/// `a^(1 + k (p - 1))` leaves the same remainder as `a` modulo the prime `p`.
pub proof fn lemma_fermat_power(p: nat, a: nat, k: nat)
    requires
        is_prime(p as int),
    ensures
        pow(a as int, 1 + k * ((p - 1) as nat)) % (p as int) == (a as int) % (p as int),
    decreases k,
{
    let p1 = (p - 1) as nat;
    if k == 0 {
        lemma_pow1(a as int);
    } else {
        let k1 = (k - 1) as nat;
        lemma_fermat_power(p, a, k1);
        let e1 = (1 + k1 * p1) as nat;
        assert(1 + k * p1 == e1 + p1) by (nonlinear_arith)
            requires
                e1 == 1 + k1 * p1,
                k1 == k - 1,
        ;
        lemma_pow_adds(a as int, e1, p1);
        let x = pow(a as int, e1);
        let y = pow(a as int, p1);
        lemma_mul_mod_noop_left(x, y, p as int);
        lemma_mul_mod_noop_left(a as int, y, p as int);
        lemma_pow_adds(a as int, 1, p1);
        lemma_pow1(a as int);
        let t = lemma_fermat(p, a);
        lemma_mod_multiples_vanish(t, a as int, p as int);
        assert(pow(a as int, 1 + k * p1) == x * y);
        assert(pow(a as int, p) == (a as int) * y);
    }
}

/// An integer that leaves the same remainder as `a` modulo `m` differs from
/// it by a multiple of `m`.
proof fn lemma_same_remainder(x: int, a: int, m: int)
    requires
        m > 0,
        x % m == a % m,
    ensures
        (x - a) % m == 0,
{
    lemma_fundamental_div_mod(x, m);
    lemma_fundamental_div_mod(a, m);
    let k = x / m - a / m;
    assert(x - a == m * k) by (nonlinear_arith)
        requires
            x == m * (x / m) + x % m,
            a == m * (a / m) + a % m,
            x % m == a % m,
            k == x / m - a / m,
    ;
    lemma_multiple_mod(m, k);
}

/// RSA's exponents undo each other: for distinct primes `p` and `q` and
/// `e * d` congruent to 1 modulo `(p - 1) * (q - 1)`, `m^(e d)` is `m` modulo
/// `p * q` for every `0 <= m < p * q`.
pub proof fn lemma_rsa_exponent(p: int, q: int, e: nat, d: nat, m: nat)
    requires
        is_prime(p),
        is_prime(q),
        p != q,
        ((e * d) as int) % ((p - 1) * (q - 1)) == 1,
        m < p * q,
    ensures
        pow(m as int, e * d) % (p * q) == m,
{
    let phi = (p - 1) * (q - 1);
    assert(phi > 0) by (nonlinear_arith)
        requires
            p > 1,
            q > 1,
            phi == (p - 1) * (q - 1),
    ;
    lemma_fundamental_div_mod((e * d) as int, phi);
    let t = ((e * d) as int) / phi;
    assert(t >= 0) by (nonlinear_arith)
        requires
            t == ((e * d) as int) / phi,
            phi > 0,
            e * d >= 0,
    ;
    let p1 = (p - 1) as nat;
    let q1 = (q - 1) as nat;
    let kp = (t * q1) as nat;
    let kq = (t * p1) as nat;
    assert(e * d == 1 + kp * p1 && e * d == 1 + kq * q1) by (nonlinear_arith)
        requires
            e * d == phi * t + 1,
            phi == (p - 1) * (q - 1),
            p1 == p - 1,
            q1 == q - 1,
            kp == t * q1,
            kq == t * p1,
    ;
    lemma_fermat_power(p as nat, m, kp);
    lemma_fermat_power(q as nat, m, kq);
    let x = pow(m as int, e * d);
    lemma_same_remainder(x, m as int, p);
    lemma_same_remainder(x, m as int, q);
    lemma_two_primes_divide(p, q, x - m);
    assert(p * q > 0) by (nonlinear_arith)
        requires
            p > 1,
            q > 1,
    ;
    lemma_fundamental_div_mod(x - m, p * q);
    let j = (x - m) / (p * q);
    lemma_fundamental_div_mod_converse(x, p * q, j, m as int);
    assert(x == j * (p * q) + m) by (nonlinear_arith)
        requires
            x - m == (p * q) * j + 0,
    ;
}

/// Every witness in `1..p` passes Fermat's test against the prime `p`:
/// `w^(p - 1)` leaves remainder 1.
pub proof fn lemma_prime_witness(p: int, w: int)
    requires
        is_prime(p),
        1 <= w < p,
    ensures
        pow(w, (p - 1) as nat) % p == 1,
{
    let p1 = (p - 1) as nat;
    let t = lemma_fermat(p as nat, w as nat);
    lemma_pow_adds(w, 1, p1);
    lemma_pow1(w);
    let y = pow(w, p1);
    assert((w * (y - 1)) % p == 0) by {
        assert(w * (y - 1) == p * t) by (nonlinear_arith)
            requires
                pow(w, p as nat) == w + p * t,
                pow(w, p as nat) == w * y,
        ;
        lemma_multiple_mod(p, t);
    }
    lemma_prime_divides_product(p, w, y - 1);
    lemma_small_mod(w as nat, p as nat);
    lemma_same_remainder_converse(y, p);
}

proof fn lemma_same_remainder_converse(y: int, p: int)
    requires
        p > 1,
        (y - 1) % p == 0,
    ensures
        y % p == 1,
{
    lemma_fundamental_div_mod(y - 1, p);
    let j = (y - 1) / p;
    assert(y == j * p + 1) by (nonlinear_arith)
        requires
            y - 1 == p * j + (y - 1) % p,
            (y - 1) % p == 0,
    ;
    lemma_fundamental_div_mod_converse(y, p, j, 1);
}

} // verus!
