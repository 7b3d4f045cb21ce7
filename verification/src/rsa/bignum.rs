//! Arbitrary-precision integers held as a sign and base 2^32 digits, with
//! the arithmetic of `num_bigint` behind trusted wrappers.
use vstd::prelude::*;
use vstd::arithmetic::power::pow;
use num_bigint::{BigInt, BigUint, Sign};
use num_traits::ToPrimitive;
use rand::distributions::uniform::{UniformSampler};
use std::str::FromStr;

verus! {

// ---------------------------------------------------------------------------
// Model
// ---------------------------------------------------------------------------

/// The value of base 2^32 digits, least significant first.
pub open spec fn limbs_value(s: Seq<u32>) -> nat
    decreases s.len(),
{
    if s.len() == 0 {
        0
    } else {
        s[0] as nat + 0x1_0000_0000 * limbs_value(s.drop_first())
    }
}

/// The value of bytes, least significant first.
pub open spec fn le_bytes_value(s: Seq<u8>) -> nat
    decreases s.len(),
{
    if s.len() == 0 {
        0
    } else {
        s[0] as nat + 256 * le_bytes_value(s.drop_first())
    }
}

pub open spec fn abs(x: int) -> nat {
    if x < 0 {
        (-x) as nat
    } else {
        x as nat
    }
}

/// Division rounding towards zero, as Rust's `/` on integers.
pub open spec fn trunc_div(a: int, b: int) -> int {
    let q = (abs(a) / abs(b)) as int;
    if (a >= 0) == (b >= 0) {
        q
    } else {
        -q
    }
}

/// The remainder of `trunc_div`, as Rust's `%` on integers.
pub open spec fn trunc_rem(a: int, b: int) -> int {
    a - b * trunc_div(a, b)
}

/// The remainder that takes the sign of `m` (`m != 0`).
pub open spec fn mod_floor(a: int, m: int) -> int {
    if m > 0 {
        a % m
    } else {
        -((-a) % (-m))
    }
}

/// The number of bits of `v`: 0 for 0.
pub open spec fn bit_len(v: nat) -> nat
    decreases v,
{
    if v == 0 {
        0
    } else {
        1 + bit_len(v / 2)
    }
}

/// A larger number has at least as many bits.
pub proof fn lemma_bit_len_monotone(a: nat, b: nat)
    requires
        a <= b,
    ensures
        bit_len(a) <= bit_len(b),
    decreases b,
{
    if a > 0 {
        lemma_bit_len_monotone(a / 2, b / 2);
    }
}

/// A number of at most `n` bits is below `2^n`.
pub proof fn lemma_bit_len_below_pow(v: nat, n: nat)
    requires
        bit_len(v) <= n,
    ensures
        v < pow(2, n),
    decreases v,
{
    vstd::arithmetic::power::lemma_pow_positive(2, n);
    if v > 0 {
        let n1 = (n - 1) as nat;
        lemma_bit_len_below_pow(v / 2, n1);
        vstd::arithmetic::power::lemma_pow_adds(2, 1, n1);
        vstd::arithmetic::power::lemma_pow1(2);
        assert(v < pow(2, n));
    }
}

/// `r` is the integer square root of `x`.
pub open spec fn is_isqrt(r: int, x: int) -> bool {
    0 <= r && r * r <= x < (r + 1) * (r + 1)
}

/// The integer square root of a non-negative `x`.
pub open spec fn isqrt(x: int) -> int {
    choose|r: int| is_isqrt(r, x)
}

/// The integer square root is unique: any `r` with `is_isqrt(r, x)` is
/// `isqrt(x)`.
pub proof fn lemma_isqrt_unique(r: int, x: int)
    requires
        is_isqrt(r, x),
    ensures
        isqrt(x) == r,
{
    let s = isqrt(x);
    assert(is_isqrt(s, x));
    if s < r {
        assert((s + 1) * (s + 1) <= r * r) by (nonlinear_arith)
            requires
                0 <= s < r,
        ;
    } else if r < s {
        assert((r + 1) * (r + 1) <= s * s) by (nonlinear_arith)
            requires
                0 <= r < s,
        ;
    }
}

/// `n / d` is in lowest terms: `d` is positive and no integer above 1
/// divides both.
pub open spec fn lowest_terms(n: int, d: int) -> bool {
    &&& d > 0
    &&& forall|k: int| k > 1 ==> !(#[trigger] (n % k) == 0 && d % k == 0)
}

/// The shortest little-endian bytes of `v`: `[0]` for 0, otherwise ending in
/// a nonzero byte.
pub open spec fn le_encoding(v: nat) -> Seq<u8>
    decreases v,
{
    if v < 256 {
        seq![v as u8]
    } else {
        seq![(v % 256) as u8] + le_encoding(v / 256)
    }
}

/// The shortest encoding reads back as the value it encodes.
pub proof fn lemma_le_encoding_value(v: nat)
    ensures
        le_bytes_value(le_encoding(v)) == v,
        le_encoding(v).len() >= 1,
    decreases v,
{
    if v >= 256 {
        lemma_le_encoding_value(v / 256);
        let s = le_encoding(v);
        assert(s.drop_first() =~= le_encoding(v / 256));
        assert(v == 256 * (v / 256) + v % 256);
        assert(s[0] == v % 256);
        assert(le_bytes_value(s) == s[0] as nat + 256 * le_bytes_value(s.drop_first()));
    } else {
        let s = le_encoding(v);
        assert(s.drop_first() =~= Seq::<u8>::empty());
        assert(s[0] == v);
        assert(le_bytes_value(s) == s[0] as nat + 256 * le_bytes_value(s.drop_first()));
    }
}

// ---------------------------------------------------------------------------
// Decimal text as `num_bigint` reads it
// ---------------------------------------------------------------------------

pub open spec fn is_digit_or_sep(c: char) -> bool {
    ('0' <= c && c <= '9') || c == '_'
}

/// The value of decimal digits, ignoring `_` separators.
pub open spec fn decimal_value(s: Seq<char>) -> nat
    decreases s.len(),
{
    if s.len() == 0 {
        0
    } else if s.last() == '_' {
        decimal_value(s.drop_last())
    } else {
        (10 * decimal_value(s.drop_last()) + ((s.last() as int) - ('0' as int))) as nat
    }
}

/// Whether `s` starts with `c`.
pub open spec fn starts_with(s: Seq<char>, c: char) -> bool {
    s.len() > 0 && s[0] == c
}

/// The integer written in `s`: an optional `-` (not followed by `+`), an
/// optional `+` (not followed by `+`), then at least one character, the first
/// a digit, all digits or `_`.
pub open spec fn parse_decimal(s: Seq<char>) -> Option<int> {
    let neg = starts_with(s, '-') && !starts_with(s.drop_first(), '+');
    let s1 = if neg { s.drop_first() } else { s };
    let body = if starts_with(s1, '+') && !starts_with(s1.drop_first(), '+') {
        s1.drop_first()
    } else {
        s1
    };
    if body.len() == 0 || body[0] == '_' || !(forall|i: int| 0 <= i < body.len() ==> is_digit_or_sep(#[trigger] body[i])) {
        None
    } else if neg {
        Some(-(decimal_value(body) as int))
    } else {
        Some(decimal_value(body) as int)
    }
}

// ---------------------------------------------------------------------------
// The integer type
// ---------------------------------------------------------------------------

/// An integer of any size: a sign and the base 2^32 digits of its magnitude.
#[derive(Debug, Clone)]
pub struct Big {
    neg: bool,
    mag: Vec<u32>,
}

impl Big {
    /// The integer.
    pub closed spec fn value(&self) -> int {
        if self.neg {
            -(limbs_value(self.mag@) as int)
        } else {
            limbs_value(self.mag@) as int
        }
    }

    /// The integer with the given sign and magnitude digits.
    pub fn from_parts(neg: bool, mag: Vec<u32>) -> (r: Big)
        ensures
            r.value() == if neg { -(limbs_value(mag@) as int) } else { limbs_value(mag@) as int },
    {
        Big { neg, mag }
    }

    /// The sign and the magnitude digits.
    pub fn parts(&self) -> (r: (bool, Vec<u32>))
        ensures
            self.value() == if r.0 { -(limbs_value(r.1@) as int) } else { limbs_value(r.1@) as int },
    {
        let mut mag: Vec<u32> = Vec::new();
        for i in 0..self.mag.len()
            invariant
                mag@ == self.mag@.take(i as int),
        {
            mag.push(self.mag[i]);
            assert(self.mag@.take(i + 1) =~= self.mag@.take(i as int).push(self.mag@[i as int]));
        }
        assert(self.mag@.take(self.mag@.len() as int) =~= self.mag@);
        (self.neg, mag)
    }

    /// A copy of the integer.
    pub fn copy(&self) -> (r: Big)
        ensures
            r.value() == self.value(),
    {
        let (neg, mag) = self.parts();
        Big::from_parts(neg, mag)
    }

    pub fn from_u64(x: u64) -> (r: Big)
        ensures
            r.value() == x,
    {
        let lo = (x % 0x1_0000_0000) as u32;
        let hi = (x / 0x1_0000_0000) as u32;
        let mut mag: Vec<u32> = Vec::new();
        mag.push(lo);
        mag.push(hi);
        proof {
            assert(mag@.drop_first().drop_first().len() == 0);
            assert(limbs_value(mag@.drop_first()) == hi as nat + 0x1_0000_0000 * limbs_value(
                mag@.drop_first().drop_first(),
            ));
        }
        Big { neg: false, mag }
    }

    pub fn zero() -> (r: Big)
        ensures
            r.value() == 0,
    {
        Big { neg: false, mag: Vec::new() }
    }

    /// The integer written in decimal in `s`, with an optional sign and `_`
    /// separators; `None` where `s` is not such a text.
    pub fn parse(s: &str) -> (r: Option<Big>)
        ensures
            match parse_decimal(s@) {
                Some(v) => r matches Some(b) && b.value() == v,
                None => r is None,
            },
    {
        big_parse(s)
    }
}

// ---------------------------------------------------------------------------
// Trusted arithmetic of num_bigint
// ---------------------------------------------------------------------------

/// `a + b`, by `BigInt`'s addition.
#[verifier::external_body]
pub(crate) fn big_add(a: &Big, b: &Big) -> (r: Big)
    ensures
        r.value() == a.value() + b.value(),
{
    let x = BigInt::from_slice(if a.neg { Sign::Minus } else { Sign::Plus }, &a.mag);
    let y = BigInt::from_slice(if b.neg { Sign::Minus } else { Sign::Plus }, &b.mag);
    let (s, m) = (x + y).to_u32_digits();
    Big { neg: s == Sign::Minus, mag: m }
}

/// `a - b`, by `BigInt`'s subtraction.
#[verifier::external_body]
pub(crate) fn big_sub(a: &Big, b: &Big) -> (r: Big)
    ensures
        r.value() == a.value() - b.value(),
{
    let x = BigInt::from_slice(if a.neg { Sign::Minus } else { Sign::Plus }, &a.mag);
    let y = BigInt::from_slice(if b.neg { Sign::Minus } else { Sign::Plus }, &b.mag);
    let (s, m) = (x - y).to_u32_digits();
    Big { neg: s == Sign::Minus, mag: m }
}

/// `a * b`, by `BigInt`'s multiplication.
#[verifier::external_body]
pub(crate) fn big_mul(a: &Big, b: &Big) -> (r: Big)
    ensures
        r.value() == a.value() * b.value(),
{
    let x = BigInt::from_slice(if a.neg { Sign::Minus } else { Sign::Plus }, &a.mag);
    let y = BigInt::from_slice(if b.neg { Sign::Minus } else { Sign::Plus }, &b.mag);
    let (s, m) = (x * y).to_u32_digits();
    Big { neg: s == Sign::Minus, mag: m }
}

/// `a / b` rounded towards zero, by `BigInt`'s division (which panics on a
/// zero divisor).
#[verifier::external_body]
pub(crate) fn big_div(a: &Big, b: &Big) -> (r: Big)
    requires
        b.value() != 0,
    ensures
        r.value() == trunc_div(a.value(), b.value()),
{
    let x = BigInt::from_slice(if a.neg { Sign::Minus } else { Sign::Plus }, &a.mag);
    let y = BigInt::from_slice(if b.neg { Sign::Minus } else { Sign::Plus }, &b.mag);
    let (s, m) = (x / y).to_u32_digits();
    Big { neg: s == Sign::Minus, mag: m }
}

/// `a % b` with the sign of `a`, by `BigInt`'s remainder (which panics on a
/// zero divisor).
#[verifier::external_body]
pub(crate) fn big_rem(a: &Big, b: &Big) -> (r: Big)
    requires
        b.value() != 0,
    ensures
        r.value() == trunc_rem(a.value(), b.value()),
{
    let x = BigInt::from_slice(if a.neg { Sign::Minus } else { Sign::Plus }, &a.mag);
    let y = BigInt::from_slice(if b.neg { Sign::Minus } else { Sign::Plus }, &b.mag);
    let (s, m) = (x % y).to_u32_digits();
    Big { neg: s == Sign::Minus, mag: m }
}

/// `x^e` reduced modulo `m` with the sign of `m`, by `BigInt::modpow`
/// (which panics on a negative exponent or a zero modulus).
#[verifier::external_body]
pub(crate) fn big_modpow(x: &Big, e: &Big, m: &Big) -> (r: Big)
    requires
        e.value() >= 0,
        m.value() != 0,
    ensures
        r.value() == mod_floor(pow(x.value(), e.value() as nat), m.value()),
{
    let b = BigInt::from_slice(if x.neg { Sign::Minus } else { Sign::Plus }, &x.mag);
    let y = BigInt::from_slice(if e.neg { Sign::Minus } else { Sign::Plus }, &e.mag);
    let z = BigInt::from_slice(if m.neg { Sign::Minus } else { Sign::Plus }, &m.mag);
    let (s, d) = b.modpow(&y, &z).to_u32_digits();
    Big { neg: s == Sign::Minus, mag: d }
}

/// `x << n`, by `BigInt`'s left shift: `x` times `2^n`.
#[verifier::external_body]
pub(crate) fn big_shl(x: &Big, n: usize) -> (r: Big)
    ensures
        r.value() == x.value() * pow(2, n as nat),
{
    let b = BigInt::from_slice(if x.neg { Sign::Minus } else { Sign::Plus }, &x.mag);
    let (s, d) = (b << n).to_u32_digits();
    Big { neg: s == Sign::Minus, mag: d }
}

/// `an / ad + bn / bd` for non-negative fractions, by the addition of
/// `fraction::Ratio<BigUint>` (num-rational): the sum is put over the least
/// common multiple of the denominators and reduced to lowest terms.
#[verifier::external_body]
pub(crate) fn big_fraction_add(an: &Big, ad: &Big, bn: &Big, bd: &Big) -> (r: (Big, Big))
    requires
        an.value() >= 0,
        ad.value() > 0,
        bn.value() >= 0,
        bd.value() > 0,
    ensures
        r.0.value() >= 0,
        lowest_terms(r.0.value(), r.1.value()),
        r.0.value() * (ad.value() * bd.value()) == (an.value() * bd.value() + bn.value()
            * ad.value()) * r.1.value(),
{
    let x = fraction::Ratio::new_raw(BigUint::from_slice(&an.mag), BigUint::from_slice(&ad.mag));
    let y = fraction::Ratio::new_raw(BigUint::from_slice(&bn.mag), BigUint::from_slice(&bd.mag));
    let (n, d) = (x + y).into_raw();
    (Big { neg: false, mag: n.to_u32_digits() }, Big { neg: false, mag: d.to_u32_digits() })
}

/// The integer square root of `x`, by `BigInt::sqrt` (which panics on a
/// negative argument).
#[verifier::external_body]
pub(crate) fn big_sqrt(x: &Big) -> (r: Big)
    requires
        x.value() >= 0,
    ensures
        is_isqrt(r.value(), x.value()),
{
    let b = BigInt::from_slice(if x.neg { Sign::Minus } else { Sign::Plus }, &x.mag);
    let (s, d) = b.sqrt().to_u32_digits();
    Big { neg: s == Sign::Minus, mag: d }
}

/// The number of bits of the magnitude of `x`, by `BigInt::bits`.
#[verifier::external_body]
pub(crate) fn big_bits(x: &Big) -> (r: u64)
    ensures
        r == bit_len(abs(x.value())),
{
    BigInt::from_slice(if x.neg { Sign::Minus } else { Sign::Plus }, &x.mag).bits()
}

/// `a < b`, by `BigInt`'s ordering.
#[verifier::external_body]
pub(crate) fn big_lt(a: &Big, b: &Big) -> (r: bool)
    ensures
        r == (a.value() < b.value()),
{
    let x = BigInt::from_slice(if a.neg { Sign::Minus } else { Sign::Plus }, &a.mag);
    let y = BigInt::from_slice(if b.neg { Sign::Minus } else { Sign::Plus }, &b.mag);
    x < y
}

/// `a == b`, by `BigInt`'s equality.
#[verifier::external_body]
pub(crate) fn big_eq(a: &Big, b: &Big) -> (r: bool)
    ensures
        r == (a.value() == b.value()),
{
    let x = BigInt::from_slice(if a.neg { Sign::Minus } else { Sign::Plus }, &a.mag);
    let y = BigInt::from_slice(if b.neg { Sign::Minus } else { Sign::Plus }, &b.mag);
    x == y
}

/// `x & 1` in two's complement, by `BigInt`'s `BitAnd`: `x` modulo 2.
#[verifier::external_body]
pub(crate) fn big_low_bit(x: &Big) -> (r: Big)
    ensures
        r.value() == x.value() % 2,
{
    let b = BigInt::from_slice(if x.neg { Sign::Minus } else { Sign::Plus }, &x.mag);
    let (s, d) = (b & BigInt::from(1u32)).to_u32_digits();
    Big { neg: s == Sign::Minus, mag: d }
}

/// The non-negative integer whose little-endian bytes are `bytes`, by
/// `BigInt::from_bytes_le` with a positive sign.
#[verifier::external_body]
pub(crate) fn big_from_bytes_le(bytes: &[u8]) -> (r: Big)
    ensures
        r.value() == le_bytes_value(bytes@),
{
    let (s, d) = BigInt::from_bytes_le(Sign::Plus, bytes).to_u32_digits();
    Big { neg: s == Sign::Minus, mag: d }
}

/// Whether `x` is negative, and the shortest little-endian bytes of its
/// magnitude, by `BigInt::to_bytes_le`.
#[verifier::external_body]
pub(crate) fn big_to_bytes_le(x: &Big) -> (r: (bool, Vec<u8>))
    ensures
        r.0 == (x.value() < 0),
        r.1@ == le_encoding(abs(x.value())),
{
    let (s, d) = BigInt::from_slice(if x.neg { Sign::Minus } else { Sign::Plus }, &x.mag).to_bytes_le();
    (s == Sign::Minus, d)
}

/// A random integer in `low..high`, by `UniformBigInt` sampling with the
/// thread's generator (which panics unless `low < high`).
#[verifier::external_body]
pub(crate) fn big_random_range(low: &Big, high: &Big) -> (r: Big)
    requires
        low.value() < high.value(),
    ensures
        low.value() <= r.value() < high.value(),
{
    let x = BigInt::from_slice(if low.neg { Sign::Minus } else { Sign::Plus }, &low.mag);
    let y = BigInt::from_slice(if high.neg { Sign::Minus } else { Sign::Plus }, &high.mag);
    let (s, d) = num_bigint::UniformBigInt::new(x, y).sample(&mut rand::thread_rng()).to_u32_digits();
    Big { neg: s == Sign::Minus, mag: d }
}

/// The integer written in decimal in `s`, by `BigInt::from_str`; `None`
/// where it reports an error.
#[verifier::external_body]
pub(crate) fn big_parse(s: &str) -> (r: Option<Big>)
    ensures
        match parse_decimal(s@) {
            Some(v) => r matches Some(b) && b.value() == v,
            None => r is None,
        },
{
    match BigInt::from_str(s) {
        Ok(b) => {
            let (s, d) = b.to_u32_digits();
            Some(Big { neg: s == Sign::Minus, mag: d })
        },
        Err(_) => None,
    }
}

/// `x` as a `u128`, by `BigInt::to_u128`; `None` when it does not fit.
#[verifier::external_body]
pub(crate) fn big_to_u128(x: &Big) -> (r: Option<u128>)
    ensures
        match r {
            Some(v) => v == x.value(),
            None => x.value() < 0 || x.value() > u128::MAX,
        },
{
    BigInt::from_slice(if x.neg { Sign::Minus } else { Sign::Plus }, &x.mag).to_u128()
}

} // verus!
