//! RSA keys: prime pairs, private and public keys, encryption, decryption and
//! SHA3-256 digests of messages.
use vstd::prelude::*;
use vstd::arithmetic::power::pow;
use vstd::arithmetic::div_mod::{
    lemma_fundamental_div_mod, lemma_mod_bound, lemma_fundamental_div_mod_converse,
};
use crate::rsa::bignum::{
    Big, abs, trunc_rem, mod_floor, bit_len, le_bytes_value, le_encoding, parse_decimal,
    big_add, big_sub, big_mul, big_rem, big_lt, big_eq, big_bits, big_modpow, big_from_bytes_le,
    big_to_bytes_le, big_random_range, big_parse, big_shl, lemma_le_encoding_value,
    lemma_bit_len_below_pow, lemma_bit_len_monotone,
};
use crate::rsa::cipher_plain::{Cipher, Plaintext};
use crate::rsa::primality_test::{
    egcd, swap, miller_rabin, ext_euclid, lemma_ext_euclid_bezout, lemma_ext_euclid_divides,
    lemma_ext_euclid_bound, lemma_trunc_rem,
};
use crate::rsa::number_theory::{is_prime, lemma_rsa_exponent};
use crate::sha3::{Keccakf, sponge_digest};
use vstd::arithmetic::power::{lemma_pow_mod_noop, lemma_pow_multiplies};

verus! {

// ---------------------------------------------------------------------------
// Model
// ---------------------------------------------------------------------------

/// The private exponent that the key construction computes from `e` and
/// `phi`: Euclid's algorithm on the larger and the smaller of the two, then
/// the coefficient of the smaller brought into range by the larger.
pub open spec fn private_exponent(e: int, phi: int) -> int {
    let a = if e < phi { phi } else { e };
    let b = if e < phi { e } else { phi };
    trunc_rem(ext_euclid(a, b).2 + a, a)
}

/// The inputs on which the key construction succeeds (it panics on all
/// others): Euclid's algorithm finds 1, and the exponent it computes checks
/// out as an inverse modulo `phi`.
pub open spec fn key_params_ok(e: int, phi: int) -> bool {
    let a = if e < phi { phi } else { e };
    let b = if e < phi { e } else { phi };
    &&& ext_euclid(a, b).0 == 1
    &&& a != 0
    &&& phi != 0
    &&& trunc_rem(b * private_exponent(e, phi), phi) == 1
}

/// The SHA3-256 digest of `data` read as a little-endian integer.
pub open spec fn digest_value(data: Seq<u8>) -> nat {
    le_bytes_value(sponge_digest(data, 136, 0x06, 32))
}

// ---------------------------------------------------------------------------
// Laws
// ---------------------------------------------------------------------------

/// Where `0 < e < phi` and `e` has an inverse modulo `phi`, the key
/// construction succeeds, and the private exponent is that inverse, in
/// `0..phi`.
pub proof fn lemma_private_exponent(e: int, phi: int, x: int)
    requires
        0 < e < phi,
        (e * x) % phi == 1,
    ensures
        key_params_ok(e, phi),
        0 <= private_exponent(e, phi) < phi,
        (e * private_exponent(e, phi)) % phi == 1,
{
    let res = ext_euclid(phi, e);
    let g = res.0;
    let y = res.2;
    lemma_ext_euclid_bezout(phi, e);
    let k = lemma_ext_euclid_divides(phi, e);
    lemma_ext_euclid_bound(phi, e);
    // g divides e * x - phi * t == 1, so g == 1.
    lemma_fundamental_div_mod(e * x, phi);
    let t = (e * x) / phi;
    let w = k.1 * x - k.0 * t;
    assert(g * w == 1) by (nonlinear_arith)
        requires
            e * x == phi * t + 1,
            phi == g * k.0,
            e == g * k.1,
            w == k.1 * x - k.0 * t,
    ;
    assert(g == 1) by (nonlinear_arith)
        requires
            g * w == 1,
            g > 0,
    ;
    // e * y == 1 - phi * res.1, so e * y is 1 modulo phi, and y != -phi.
    assert(phi * res.1 + e * y == 1);
    assert(y != -phi) by {
        if y == -phi {
            assert(e * y == phi * (-e)) by (nonlinear_arith)
                requires
                    y == -phi,
            ;
            assert(phi * (res.1 - e) == 1) by (nonlinear_arith)
                requires
                    phi * res.1 + e * y == 1,
                    e * y == phi * (-e),
            ;
            assert(false) by (nonlinear_arith)
                requires
                    phi * (res.1 - e) == 1,
                    phi > 1,
            ;
        }
    }
    let d = private_exponent(e, phi);
    lemma_trunc_rem(y + phi, phi);
    assert(d == (y + phi) % phi);
    lemma_mod_bound(y + phi, phi);
    lemma_fundamental_div_mod(y + phi, phi);
    let m = (y + phi) / phi;
    assert(e * d == phi * (e - e * m - res.1) + 1) by (nonlinear_arith)
        requires
            y + phi == phi * m + d,
            phi * res.1 + e * y == 1,
    ;
    lemma_fundamental_div_mod_converse(e * d, phi, e - e * m - res.1, 1);
    assert(e * d >= 0) by (nonlinear_arith)
        requires
            e > 0,
            d >= 0,
    ;
    lemma_trunc_rem(e * d, phi);
}

/// RSA decryption undoes encryption: for a key that `PrivateKey::new` builds
/// from distinct primes `p`, `q` and a public exponent `0 < e < phi` that has
/// an inverse modulo `phi = (p - 1) * (q - 1)`, decrypting the encryption of
/// any `0 <= m < p * q` gives back `m`. The cipher text has no more bits than
/// `p * q` and the private exponent is non-negative, so a modulus of at most
/// 1024 bits meets `decrypt`'s requirements.
pub proof fn lemma_rsa_round_trip(p: int, q: int, e: int, x: int, m: int)
    requires
        is_prime(p),
        is_prime(q),
        p != q,
        0 < e < (p - 1) * (q - 1),
        (e * x) % ((p - 1) * (q - 1)) == 1,
        0 <= m < p * q,
    ensures
        key_params_ok(e, (p - 1) * (q - 1)),
        0 <= private_exponent(e, (p - 1) * (q - 1)),
        0 <= mod_floor(pow(m, e as nat), p * q) < p * q,
        bit_len(abs(mod_floor(pow(m, e as nat), p * q))) <= bit_len((p * q) as nat),
        mod_floor(
            pow(mod_floor(pow(m, e as nat), p * q), private_exponent(e, (p - 1) * (q - 1)) as nat),
            p * q,
        ) == m,
{
    let phi = (p - 1) * (q - 1);
    let n = p * q;
    lemma_private_exponent(e, phi, x);
    let d = private_exponent(e, phi);
    assert(n > 0) by (nonlinear_arith)
        requires
            p > 1,
            q > 1,
            n == p * q,
    ;
    lemma_pow_mod_noop(pow(m, e as nat), d as nat, n);
    lemma_pow_multiplies(m, e as nat, d as nat);
    lemma_rsa_exponent(p, q, e as nat, d as nat, m as nat);
    let c = mod_floor(pow(m, e as nat), n);
    lemma_mod_bound(pow(m, e as nat), n);
    lemma_bit_len_monotone(abs(c), n as nat);
}

/// The bytes of a public key, `n` then `e`, read back with the length of
/// `n`'s bytes give back `n` and `e`.
pub proof fn lemma_public_key_bytes(e: nat, n: nat)
    ensures
        ({
            let bytes = le_encoding(n) + le_encoding(e);
            let k = le_encoding(n).len() as int;
            le_bytes_value(bytes.take(k)) == n && le_bytes_value(bytes.skip(k)) == e
        }),
{
    let bytes = le_encoding(n) + le_encoding(e);
    let k = le_encoding(n).len() as int;
    assert(bytes.take(k) =~= le_encoding(n));
    assert(bytes.skip(k) =~= le_encoding(e));
    lemma_le_encoding_value(n);
    lemma_le_encoding_value(e);
}

proof fn lemma_small_bit_len(v: nat)
    requires
        v <= 2,
    ensures
        bit_len(v) <= 2,
{
    reveal_with_fuel(bit_len, 3);
}

// ---------------------------------------------------------------------------
// Prime generation
// ---------------------------------------------------------------------------

/// Keeps the drawn `sample` where it has exactly `size` bits and `passed`
/// the primality test.
pub fn accept_candidate(sample: &Big, size: usize, passed: bool) -> (r: Option<Big>)
    ensures
        r is Some <==> (bit_len(abs(sample.value())) == size && passed),
        r matches Some(x) ==> x.value() == sample.value(),
{
    if big_bits(sample) == size as u64 && passed {
        Some(sample.copy())
    } else {
        None
    }
}

/// One draw of the prime search: a random integer between `head << (size -
/// 32)` and `1 << size` (in whichever order they come), kept (by
/// `accept_candidate`) where it has exactly `size` bits and passes 50 rounds
/// of the primality test. Which integer is drawn rests on chance.
pub fn generate_candidate(head: u64, size: usize) -> (r: Option<Big>)
    requires
        size >= 32,
        head != 0x1_0000_0000,
    ensures
        r matches Some(x) ==> {
            &&& head * pow(2, (size - 32) as nat) <= x.value() < pow(2, size as nat)
            &&& bit_len(abs(x.value())) == size
            &&& x.value() % 2 == 1
            &&& x.value() > 2
        },
{
    let low = big_shl(&Big::from_u64(head), size - 32);
    let high = big_shl(&Big::from_u64(1), size);
    proof {
        vstd::arithmetic::power::lemma_pow_adds(2, (size - 32) as nat, 32);
        vstd::arithmetic::power::lemma_pow_positive(2, (size - 32) as nat);
        vstd::arithmetic::power2::lemma2_to64();
        vstd::arithmetic::power2::lemma_pow2(32);
        assert(pow(2, size as nat) == pow(2, (size - 32) as nat) * pow(2, 32));
        assert(low.value() != high.value()) by (nonlinear_arith)
            requires
                low.value() == head * pow(2, (size - 32) as nat),
                high.value() == 1 * pow(2, size as nat),
                pow(2, size as nat) == pow(2, (size - 32) as nat) * 0x1_0000_0000,
                pow(2, (size - 32) as nat) > 0,
                head != 0x1_0000_0000,
        ;
        assert(low.value() >= 0) by (nonlinear_arith)
            requires
                low.value() == head * pow(2, (size - 32) as nat),
                pow(2, (size - 32) as nat) > 0,
                head >= 0,
        ;
        vstd::arithmetic::power::lemma_pow_positive(2, size as nat);
    }
    let sample = if big_lt(&low, &high) {
        big_random_range(&low, &high)
    } else {
        big_random_range(&high, &low)
    };
    let passed = if big_bits(&sample) == size as u64 {
        proof {
            if sample.value() <= 2 {
                lemma_small_bit_len(abs(sample.value()));
            }
        }
        miller_rabin(&sample, 50)
    } else {
        false
    };
    let r = accept_candidate(&sample, size, passed);
    proof {
        if r is Some {
            lemma_bit_len_below_pow(abs(sample.value()), size as nat);
        }
    }
    r
}

/// The two heads of a prime pair: each with its top bit (bit 31) set, kept
/// where their product has its top bit (bit 63) set, so that the modulus has
/// the full size; `None` where it has not.
pub fn prime_heads(phead: u64, qhead: u64) -> (r: Option<(u64, u64)>)
    requires
        phead < 0x1_0000_0000,
        qhead < 0x1_0000_0000,
    ensures
        ({
            let p = phead | 0x8000_0000;
            let q = qhead | 0x8000_0000;
            &&& r matches Some(h) ==> h == (p, q)
            &&& r is Some <==> p * q >= 0x8000_0000_0000_0000
        }),
{
    let p: u64 = phead | 0x8000_0000;
    let q: u64 = qhead | 0x8000_0000;
    assert(p < 0x1_0000_0000) by (bit_vector)
        requires
            phead < 0x1_0000_0000,
            p == phead | 0x8000_0000,
    ;
    assert(q < 0x1_0000_0000) by (bit_vector)
        requires
            qhead < 0x1_0000_0000,
            q == qhead | 0x8000_0000,
    ;
    assert(p * q < 0x1_0000_0000_0000_0000) by (nonlinear_arith)
        requires
            p < 0x1_0000_0000,
            q < 0x1_0000_0000,
    ;
    let res: u64 = p * q;
    if res >= 0x8000_0000_0000_0000 {
        Some((p, q))
    } else {
        None
    }
}

// ---------------------------------------------------------------------------
// Keys
// ---------------------------------------------------------------------------

/// Two primes `p` and `q`.
#[derive(Clone)]
pub struct PrimePair {
    p: Big,
    q: Big,
}

impl PrimePair {
    pub closed spec fn p_value(&self) -> int {
        self.p.value()
    }

    pub closed spec fn q_value(&self) -> int {
        self.q.value()
    }

    /// `(p - 1) * (q - 1)`.
    pub open spec fn phi_value(&self) -> int {
        (self.p_value() - 1) * (self.q_value() - 1)
    }

    /// `p * q`.
    pub fn product(&self) -> (r: Big)
        ensures
            r.value() == self.p_value() * self.q_value(),
    {
        big_mul(&self.p, &self.q)
    }

    /// `(p - 1) * (q - 1)`.
    pub fn phi_p(&self) -> (r: Big)
        ensures
            r.value() == self.phi_value(),
    {
        let one = Big::from_u64(1);
        big_mul(&big_sub(&self.p, &one), &big_sub(&self.q, &one))
    }

    pub fn p(&self) -> (r: Big)
        ensures
            r.value() == self.p_value(),
    {
        self.p.copy()
    }

    pub fn q(&self) -> (r: Big)
        ensures
            r.value() == self.q_value(),
    {
        self.q.copy()
    }

    pub fn from_p_q(p: Big, q: Big) -> (r: PrimePair)
        ensures
            r.p_value() == p.value(),
            r.q_value() == q.value(),
    {
        PrimePair { p, q }
    }
}

/// A private key: the prime pair, the public exponent `e`, the private
/// exponent `d` and the modulus `n`.
#[derive(Clone)]
pub struct PrivateKey {
    p_q_pair: PrimePair,
    e: Big,
    d: Big,
    n: Big,
}

impl PrivateKey {
    pub closed spec fn pair(&self) -> PrimePair {
        self.p_q_pair
    }

    pub closed spec fn e_value(&self) -> int {
        self.e.value()
    }

    pub closed spec fn d_value(&self) -> int {
        self.d.value()
    }

    pub closed spec fn n_value(&self) -> int {
        self.n.value()
    }

    /// The key with public exponent `e`: the private exponent is the inverse
    /// of `e` modulo `(p - 1) * (q - 1)` that Euclid's algorithm finds (see
    /// `lemma_private_exponent`), and the modulus is `p * q`.
    pub fn new(pair: PrimePair, e: Big) -> (k: PrivateKey)
        requires
            key_params_ok(e.value(), pair.phi_value()),
        ensures
            k.pair() == pair,
            k.e_value() == e.value(),
            k.d_value() == private_exponent(e.value(), pair.phi_value()),
            k.n_value() == pair.p_value() * pair.q_value(),
    {
        let mut a = e.copy();
        let mut b = pair.phi_p();
        let mut r = Big::from_u64(1);
        let mut s = Big::zero();
        if big_lt(&a, &b) {
            swap(&mut a, &mut b);
        }
        let _gcd = egcd(&mut a, &mut b, &mut r, &mut s);
        let shifted = big_add(&s, &a);
        let d = big_rem(&shifted, &a);
        let n = pair.product();
        PrivateKey { p_q_pair: pair, e, d, n }
    }

    /// The key with public exponent 65537.
    pub fn default_new(pair: PrimePair) -> (k: PrivateKey)
        requires
            key_params_ok(65537, pair.phi_value()),
        ensures
            k.pair() == pair,
            k.e_value() == 65537,
            k.d_value() == private_exponent(65537, pair.phi_value()),
            k.n_value() == pair.p_value() * pair.q_value(),
    {
        Self::new(pair, Big::from_u64(65537))
    }

    /// The key that knows only `d` and `n`: its primes and `e` are 0.
    pub fn new_with_dn(d: Big, n: Big) -> (k: PrivateKey)
        ensures
            k.pair().p_value() == 0,
            k.pair().q_value() == 0,
            k.e_value() == 0,
            k.d_value() == d.value(),
            k.n_value() == n.value(),
    {
        PrivateKey { p_q_pair: PrimePair::from_p_q(Big::zero(), Big::zero()), e: Big::zero(), d, n }
    }

    pub fn e(&self) -> (r: Big)
        ensures
            r.value() == self.e_value(),
    {
        self.e.copy()
    }

    pub fn d(&self) -> (r: Big)
        ensures
            r.value() == self.d_value(),
    {
        self.d.copy()
    }

    pub fn n(&self) -> (r: Big)
        ensures
            r.value() == self.n_value(),
    {
        self.n.copy()
    }

    /// A copy of the key's prime pair.
    pub fn prime_pair(&self) -> (r: PrimePair)
        ensures
            r.p_value() == self.pair().p_value(),
            r.q_value() == self.pair().q_value(),
    {
        PrimePair::from_p_q(self.p_q_pair.p(), self.p_q_pair.q())
    }

    /// `p * q` of the key's prime pair.
    pub fn product(&self) -> (r: Big)
        ensures
            r.value() == self.pair().p_value() * self.pair().q_value(),
    {
        self.p_q_pair.product()
    }

    /// `c^d mod n`, for a cipher text of at most 1024 bits (a longer one is
    /// refused).
    pub fn decrypt(&self, c: Cipher) -> (m: Plaintext)
        requires
            bit_len(abs(c.fragments.value())) <= 1024,
            self.d_value() >= 0,
            self.n_value() != 0,
        ensures
            m.fragments.value() == mod_floor(
                pow(c.fragments.value(), self.d_value() as nat),
                self.n_value(),
            ),
    {
        Plaintext { fragments: big_modpow(&c.fragments, &self.d, &self.n) }
    }

    /// The key with `e` = 65537 for the primes `p` and `q`.
    pub fn from_biguint(p: Big, q: Big) -> (k: PrivateKey)
        requires
            key_params_ok(65537, (p.value() - 1) * (q.value() - 1)),
        ensures
            k.pair().p_value() == p.value(),
            k.pair().q_value() == q.value(),
            k.e_value() == 65537,
            k.d_value() == private_exponent(65537, (p.value() - 1) * (q.value() - 1)),
            k.n_value() == p.value() * q.value(),
    {
        Self::default_new(PrimePair::from_p_q(p, q))
    }

    /// The SHA3-256 digest of `data`, read as a little-endian integer.
    pub fn sign(&self, data: &[u8]) -> (r: Big)
        ensures
            r.value() == digest_value(data@),
    {
        digest_of(data)
    }
}

/// Whether the key construction succeeds for the public exponent `e` and
/// `phi`, that is whether `key_params_ok(e, phi)`.
pub fn key_params_hold(e: &Big, phi: &Big) -> (r: bool)
    ensures
        r == key_params_ok(e.value(), phi.value()),
{
    let mut a = e.copy();
    let mut b = phi.copy();
    let mut r = Big::from_u64(1);
    let mut s = Big::zero();
    if big_lt(&a, &b) {
        swap(&mut a, &mut b);
    }
    let gcd = egcd(&mut a, &mut b, &mut r, &mut s);
    let one = Big::from_u64(1);
    let zero = Big::zero();
    let g = match gcd {
        Some(g) => g,
        None => {
            return false;
        },
    };
    if !big_eq(&g, &one) || big_eq(&a, &zero) || big_eq(phi, &zero) {
        return false;
    }
    let d = big_rem(&big_add(&s, &a), &a);
    let check = big_rem(&big_mul(&b, &d), phi);
    big_eq(&check, &one)
}

/// The SHA3-256 digest of `data`, read as a little-endian integer.
fn digest_of(data: &[u8]) -> (r: Big)
    ensures
        r.value() == digest_value(data@),
{
    let mut hasher = Keccakf::new_v256();
    hasher.hash(data);
    let mut digest: Vec<u8> = vec![0u8; 32];
    hasher.finalize(digest.as_mut_slice());
    big_from_bytes_le(digest.as_slice())
}

/// A public key: the exponent `e` and the modulus `n`.
#[derive(Debug)]
pub struct PublicKey {
    e: Big,
    n: Big,
}

impl PublicKey {
    pub closed spec fn e_value(&self) -> int {
        self.e.value()
    }

    pub closed spec fn n_value(&self) -> int {
        self.n.value()
    }

    /// `m^e mod n`, for a plain text of fewer than 1024 bits (a longer one is
    /// refused).
    pub fn encrypt(&self, m: Plaintext) -> (c: Cipher)
        requires
            bit_len(abs(m.fragments.value())) < 1024,
            self.e_value() >= 0,
            self.n_value() != 0,
        ensures
            c.fragments.value() == mod_floor(
                pow(m.fragments.value(), self.e_value() as nat),
                self.n_value(),
            ),
    {
        Cipher { fragments: big_modpow(&m.fragments, &self.e, &self.n) }
    }

    /// The key whose `n` has the little-endian bytes `arr[..key_size]` and
    /// whose `e` has the bytes after them.
    pub fn from_u8_slice(arr: &mut [u8], key_size: &usize) -> (k: PublicKey)
        requires
            *key_size <= old(arr)@.len(),
        ensures
            final(arr)@ == old(arr)@,
            k.n_value() == le_bytes_value(old(arr)@.take(*key_size as int)),
            k.e_value() == le_bytes_value(old(arr)@.skip(*key_size as int)),
    {
        let ks = *key_size;
        let mut n_arr: Vec<u8> = Vec::new();
        let mut e_arr: Vec<u8> = Vec::new();
        let mut i: usize = 0;
        while i < arr.len()
            invariant
                ks <= arr@.len(),
                i <= arr@.len(),
                i <= ks ==> n_arr@ == arr@.take(i as int) && e_arr@.len() == 0,
                i > ks ==> n_arr@ == arr@.take(ks as int) && e_arr@ == arr@.subrange(
                    ks as int,
                    i as int,
                ),
            decreases arr@.len() - i,
        {
            if i < ks {
                n_arr.push(arr[i]);
                assert(arr@.take(i + 1) =~= arr@.take(i as int).push(arr@[i as int]));
            } else {
                e_arr.push(arr[i]);
                assert(arr@.subrange(ks as int, i + 1) =~= arr@.subrange(ks as int, i as int).push(
                    arr@[i as int],
                ));
            }
            i = i + 1;
        }
        proof {
            if ks == arr@.len() {
                assert(arr@.skip(ks as int) =~= e_arr@);
            } else {
                assert(arr@.skip(ks as int) =~= arr@.subrange(ks as int, arr@.len() as int));
            }
        }
        let e = big_from_bytes_le(e_arr.as_slice());
        let n = big_from_bytes_le(n_arr.as_slice());
        PublicKey { e, n }
    }

    /// The shortest little-endian bytes of `n`, then those of `e`, for a key
    /// with neither negative.
    pub fn into_vec(&self) -> (r: Vec<u8>)
        requires
            self.e_value() >= 0,
            self.n_value() >= 0,
        ensures
            r@ == le_encoding(self.n_value() as nat) + le_encoding(self.e_value() as nat),
    {
        let (_, e_arr) = big_to_bytes_le(&self.e);
        let (_, n_arr) = big_to_bytes_le(&self.n);
        let mut v = n_arr;
        let ghost n_bytes = v@;
        for i in 0..e_arr.len()
            invariant
                v@ == n_bytes + e_arr@.take(i as int),
        {
            v.push(e_arr[i]);
            assert(e_arr@.take(i + 1) =~= e_arr@.take(i as int).push(e_arr@[i as int]));
        }
        assert(e_arr@.take(e_arr@.len() as int) =~= e_arr@);
        v
    }

    pub fn from_e_n(e: Big, n: Big) -> (k: PublicKey)
        ensures
            k.e_value() == e.value(),
            k.n_value() == n.value(),
    {
        PublicKey { e, n }
    }

    /// Whether the SHA3-256 digest of `data`, read as a little-endian
    /// integer, is the integer written in decimal in `text` (which must be
    /// such an integer).
    pub fn authorize(&self, data: &[u8], text: &str) -> (r: bool)
        requires
            parse_decimal(text@) is Some,
        ensures
            r == (digest_value(data@) == parse_decimal(text@).unwrap()),
    {
        let res = digest_of(data);
        match big_parse(text) {
            Some(t) => big_eq(&res, &t),
            None => false,
        }
    }

    pub fn e(&self) -> (r: Big)
        ensures
            r.value() == self.e_value(),
    {
        self.e.copy()
    }

    pub fn n(&self) -> (r: Big)
        ensures
            r.value() == self.n_value(),
    {
        self.n.copy()
    }

    /// The public half of a private key: its `e`, and `p * q` of its prime
    /// pair as the modulus.
    pub fn from(pr: PrivateKey) -> (k: PublicKey)
        ensures
            k.e_value() == pr.e_value(),
            k.n_value() == pr.pair().p_value() * pr.pair().q_value(),
    {
        PublicKey { e: pr.e(), n: pr.product() }
    }
}

} // verus!
