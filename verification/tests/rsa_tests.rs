use crypto_algor::attack_algor::ContinuedFractionStream;
use crypto_algor::rsa::attack::{
    self, expand_to_i, expansion, p_q_close, solve_quadratic, wiener_search, ContinuedRatioStream,
};
use crypto_algor::rsa::bignum::Big;
use crypto_algor::rsa::cipher_plain::{Cipher, Plaintext, PlaintextError};
use crypto_algor::rsa::key::{
    accept_candidate, generate_candidate, key_params_hold, prime_heads, PrimePair, PrivateKey, PublicKey,
};
use crypto_algor::rsa::primality_test::{egcd, miller_rabin, pass_miller_rabin, swap};
use num_bigint::{BigInt, Sign};
use rand::RngCore;

fn to_bigint(x: &Big) -> BigInt {
    let (neg, mag) = x.parts();
    BigInt::from_slice(if neg { Sign::Minus } else { Sign::Plus }, &mag)
}

fn from_bigint(x: &BigInt) -> Big {
    let (sign, mag) = x.to_u32_digits();
    Big::from_parts(sign == Sign::Minus, mag)
}

fn big(s: &str) -> Big {
    Big::parse(s).expect("a decimal integer")
}

fn num(x: i64) -> Big {
    from_bigint(&BigInt::from(x))
}

/// A prime pair and key of `size` bits, drawn as the program draws them.
fn new_with_key_size(size: usize) -> PrivateKey {
    let mut rng = rand::thread_rng();
    loop {
        let (phead, qhead) = loop {
            if let Some(h) = prime_heads(rng.next_u32() as u64, rng.next_u32() as u64) {
                break h;
            }
        };
        let psize = size / 2;
        let qsize = size - psize;
        let p = loop {
            if let Some(x) = generate_candidate(phead, psize) {
                break x;
            }
        };
        let q = loop {
            if let Some(x) = generate_candidate(qhead, qsize) {
                break x;
            }
        };
        let pair = PrimePair::from_p_q(p, q);
        if key_params_hold(&num(65537), &pair.phi_p()) {
            return PrivateKey::default_new(pair);
        }
    }
}

#[test]
fn egcd_test() {
    let mut a = big("12380339579751423114926012726846665859109128160473940858920447764947665998051717659753451209511089125471702436331586838284243106985194623174305037109060833");
    let mut b = big("12693668861142308203949909107307076109568333642561164188438129182387558715809963097589529080910832736763413534205399930018866988526805104438993153026665709");
    let mut r = num(1);
    let mut s = num(0);
    let gcd = egcd(&mut a, &mut b, &mut r, &mut s).unwrap();
    let (a, b, r, s, gcd) = (
        to_bigint(&a),
        to_bigint(&b),
        to_bigint(&r),
        to_bigint(&s),
        to_bigint(&gcd),
    );
    println!("{} * {} + {} * {} = {}", a, r, b, s, gcd);

    // a * r = 1 (mod b)
    assert_eq!(a.clone() * r.clone() % b.clone(), BigInt::from(1u32));
}

#[test]
fn encrypt_decrypt_test() {
    let pr = new_with_key_size(1024);
    let pu = PublicKey::from(pr.clone());

    let s = "Hello World";
    println!("{:?}", s.as_bytes());
    let cipher = pu.encrypt(Plaintext::new(s.as_bytes()));
    println!("cipher = {}", to_bigint(&cipher.fragments));

    let m = pr.decrypt(cipher);
    assert_eq!(s, m.into_string().unwrap());
}

#[test]
fn sign_authorize_test() {
    let pr = new_with_key_size(1024);
    let pu = PublicKey::from(pr.clone());

    let contents = b"file";
    let sign = pr.sign(contents);
    let text = to_bigint(&sign).to_string();
    assert!(pu.authorize(contents, &text));
    assert!(!pu.authorize(b"another file", &text));
}

#[test]
fn attack_p_q_close() {
    let s = "8419248954524000439721779172023134688983838205866625782151550834434276874684863239544369195264071670152656061813873751842115416791829324879655667191724512456544905595733991629887800889255133717212624547817690492648616532902257249552981800714896543008295153051040335475732125114592095784407296265046992475467";
    let n = big(s);
    let (p, q) = p_q_close(&n);
    assert_eq!(to_bigint(&p) * to_bigint(&q), to_bigint(&n));
}

#[test]
fn attack_d_too_small() {
    let n = big("3351434899016066636045491452890486808714908934340001357148989");
    let e = big("568760665726569109874762046085236437330350817075710631256941");

    // No convergent of e / n gives factors of n here: the search ends on
    // (0, 0), for which no key can be built, so no key comes back and a key
    // keeping e cannot be checked.
    let pr = attack::pr_d_too_small(e.copy(), n.copy());
    assert!(pr.is_none());
    let (p, q) = wiener_search(&e, &n);
    assert_eq!((to_bigint(&p), to_bigint(&q)), (BigInt::from(0), BigInt::from(0)));
    assert!(!key_params_hold(&e, &PrimePair::from_p_q(p, q).phi_p()));
    if let Some(pr) = pr {
        let pu = PublicKey::from(pr);
        assert_eq!(to_bigint(&e), to_bigint(&pu.e()));
    }
}

#[test]
fn wiener_finds_the_primes() {
    // p = 1155587265460919309098822660847, q = 1144782567404347824212535212519,
    // d = 576129
    let n = big("1322896156614120841326852727084877951972803371523810205543593");
    let e = big("593156226930131165232225034702562600999316526230179063763005");
    let (p, q) = wiener_search(&e, &n);
    assert_eq!(to_bigint(&p), BigInt::from(1144782567404347824212535212519u128));
    assert_eq!(to_bigint(&q), BigInt::from(1155587265460919309098822660847u128));
    assert!(key_params_hold(&e, &PrimePair::from_p_q(p, q).phi_p()));
    let pr = attack::pr_d_too_small(e.copy(), n.copy()).unwrap();
    assert_eq!(to_bigint(&pr.d()), BigInt::from(576129));
    let plaintext = pr.decrypt(Cipher::new(
        "776657871630307948133276792317024203478404886154249517195170",
    ));
    assert_eq!(plaintext.into_string().unwrap(), "wiener");
    let pu = PublicKey::from(pr);
    assert_eq!(to_bigint(&e), to_bigint(&pu.e()));
    assert_eq!(to_bigint(&pu.n()), to_bigint(&n));
    // the classic small case: 90581 = 239 * 379, d = 5
    let (p, q) = wiener_search(&num(17993), &num(90581));
    assert_eq!((to_bigint(&p), to_bigint(&q)), (BigInt::from(239), BigInt::from(379)));
}

#[test]
fn swap_exchanges() {
    let mut a = num(3);
    let mut b = num(-7);
    swap(&mut a, &mut b);
    assert_eq!(to_bigint(&a), BigInt::from(-7));
    assert_eq!(to_bigint(&b), BigInt::from(3));
}

#[test]
fn egcd_small_values() {
    // 240 and 46: gcd 2, 240 * (-9) + 46 * 47 = 2
    let mut a = num(46);
    let mut b = num(240);
    let mut r = num(1);
    let mut s = num(0);
    let g = egcd(&mut a, &mut b, &mut r, &mut s).unwrap();
    assert_eq!(to_bigint(&a), BigInt::from(240));
    assert_eq!(to_bigint(&b), BigInt::from(46));
    assert_eq!(to_bigint(&g), BigInt::from(2));
    assert_eq!(to_bigint(&r), BigInt::from(-9));
    assert_eq!(to_bigint(&s), BigInt::from(47));
    // with a zero: the other number, coefficients 1 and 0
    let mut a = num(5);
    let mut b = num(0);
    let mut r = num(7);
    let mut s = num(7);
    let g = egcd(&mut a, &mut b, &mut r, &mut s).unwrap();
    assert_eq!(to_bigint(&g), BigInt::from(5));
    assert_eq!(to_bigint(&r), BigInt::from(1));
    assert_eq!(to_bigint(&s), BigInt::from(0));
}

#[test]
fn fermat_witness() {
    // 2^12 mod 13 = 1
    assert!(pass_miller_rabin(&num(2), &num(13)));
    // 2^14 mod 15 = 4, which is neither 1 nor 2 - 1
    assert!(!pass_miller_rabin(&num(2), &num(15)));
    // 4^14 mod 15 = 1
    assert!(pass_miller_rabin(&num(4), &num(15)));
    // 14^14 mod 15 = 1
    assert!(pass_miller_rabin(&num(14), &num(15)));
}

#[test]
fn miller_rabin_results() {
    assert!(!miller_rabin(&num(10), 5));
    assert!(!miller_rabin(&num(0), 5));
    assert!(miller_rabin(&num(15), 0));
    assert!(miller_rabin(&num(104729), 20));
    assert!(miller_rabin(&big("170141183460469231731687303715884105727"), 20));
    assert!(!miller_rabin(&big("170141183460469231731687303715884105729"), 20));
}

#[test]
fn key_from_small_primes() {
    // p = 61, q = 53, phi = 3120, e = 17: d = 2753
    let pair = PrimePair::from_p_q(num(61), num(53));
    assert_eq!(to_bigint(&pair.product()), BigInt::from(3233));
    assert_eq!(to_bigint(&pair.phi_p()), BigInt::from(3120));
    assert!(key_params_hold(&num(17), &pair.phi_p()));
    let pr = PrivateKey::new(pair.clone(), num(17));
    assert_eq!(to_bigint(&pr.d()), BigInt::from(2753));
    assert_eq!(to_bigint(&pr.e()), BigInt::from(17));
    assert_eq!(to_bigint(&pr.n()), BigInt::from(3233));
    let pu = PublicKey::from(pr.clone());
    assert_eq!(to_bigint(&pu.n()), BigInt::from(3233));
    // 65^17 mod 3233 = 2790, and back
    let c = pu.encrypt(Plaintext { fragments: num(65) });
    assert_eq!(to_bigint(&c.fragments), BigInt::from(2790));
    let m = pr.decrypt(c);
    assert_eq!(to_bigint(&m.fragments), BigInt::from(65));
    // e sharing a factor with phi: no key
    assert!(!key_params_hold(&num(15), &num(3120)));
    // e above phi: the construction's check fails
    assert!(!key_params_hold(&num(3121), &num(3120)));
}

#[test]
fn key_with_dn_and_default() {
    let pr = PrivateKey::new_with_dn(num(2753), num(3233));
    assert_eq!(to_bigint(&pr.e()), BigInt::from(0));
    assert_eq!(to_bigint(&pr.product()), BigInt::from(0));
    let m = pr.decrypt(Cipher::new("2790"));
    assert_eq!(to_bigint(&m.fragments), BigInt::from(65));
    // 65537 is coprime to (1009 - 1) * (1013 - 1) = 1020096
    assert!(key_params_hold(&num(65537), &num(1020096)));
    let pr = PrivateKey::from_biguint(num(1009), num(1013));
    assert_eq!(to_bigint(&pr.e()), BigInt::from(65537));
    let d = to_bigint(&pr.d());
    assert_eq!(BigInt::from(65537) * d % BigInt::from(1020096), BigInt::from(1));
    // below phi's size, 65537 is the larger and the construction's check fails
    assert!(!key_params_hold(&num(65537), &num(11200)));
}

#[test]
fn public_key_bytes_round_trip() {
    let pu = PublicKey::from_e_n(num(65537), num(3233));
    let mut bytes = pu.into_vec();
    assert_eq!(bytes, vec![0xa1, 0x0c, 0x01, 0x00, 0x01]);
    let back = PublicKey::from_u8_slice(&mut bytes, &2);
    assert_eq!(to_bigint(&back.e()), BigInt::from(65537));
    assert_eq!(to_bigint(&back.n()), BigInt::from(3233));
    let zero = PublicKey::from_e_n(num(0), num(0));
    assert_eq!(zero.into_vec(), vec![0, 0]);
}

#[test]
fn cipher_and_plain_text() {
    let c = Cipher::new("-1_000");
    assert_eq!(to_bigint(&c.fragments), BigInt::from(-1000));
    assert!(Big::parse("12a").is_none());
    assert!(Big::parse("").is_none());
    assert!(Big::parse("-+1").is_none());
    let m = Plaintext::new("Hi".as_bytes());
    assert_eq!(to_bigint(&m.fragments), BigInt::from(0x6948));
    assert_eq!(m.into_string().unwrap(), "Hi");
    let bad = Plaintext::new(&[0xff, 0xfe]);
    assert_eq!(bad.into_string(), Err(PlaintextError::InvalidUtf8));
}

#[test]
fn prime_heads_and_candidates() {
    assert_eq!(prime_heads(0, 0), None);
    assert_eq!(prime_heads(0xffff_ffff, 0xffff_ffff), Some((0xffff_ffff, 0xffff_ffff)));
    assert_eq!(prime_heads(0x4000_0000, 0x4000_0000), Some((0xc000_0000, 0xc000_0000)));
    let mut found = 0;
    for _ in 0..2000 {
        if let Some(x) = generate_candidate(0x8000_0001, 64) {
            let v = to_bigint(&x);
            assert_eq!(v.bits(), 64);
            assert_eq!(&v % 2u32, BigInt::from(1));
            found += 1;
        }
    }
    assert!(found > 0);
}

#[test]
fn continued_fraction_of_415_over_93() {
    // 415 / 93 = [4; 2, 6, 7]
    let mut ps = ContinuedRatioStream::new(&num(415), &num(93));
    assert_eq!(ps.quotients().len(), 1);
    let first = ps.next().unwrap();
    assert_eq!(to_bigint(&first), BigInt::from(2));
    ps.gen_all();
    let qs: Vec<BigInt> = ps.quotients().iter().map(to_bigint).collect();
    assert_eq!(qs, vec![BigInt::from(4), BigInt::from(2), BigInt::from(6), BigInt::from(7)]);
    assert!(ps.next().is_none());
    // convergents: 4, 9/2, 58/13, 415/93
    let qs_big: Vec<Big> = ps.quotients().iter().map(|b| b.copy()).collect();
    let (k, d) = expand_to_i(&qs_big, 3);
    assert_eq!((to_bigint(&k), to_bigint(&d)), (BigInt::from(58), BigInt::from(13)));
    let (k, d) = expand_to_i(&qs_big, 4);
    assert_eq!((to_bigint(&k), to_bigint(&d)), (BigInt::from(415), BigInt::from(93)));
    let (k, d) = expand_to_i(&qs_big, 1);
    assert_eq!((to_bigint(&k), to_bigint(&d)), (BigInt::from(4), BigInt::from(1)));
    // 1 / (2 + 1 / (6 + 1 / 7)) = 43 / 93
    let f = expansion(&qs_big[1..]);
    assert_eq!((to_bigint(&f.numer), to_bigint(&f.denom)), (BigInt::from(43), BigInt::from(93)));
    let f = expansion(&[]);
    assert_eq!((to_bigint(&f.numer), to_bigint(&f.denom)), (BigInt::from(0), BigInt::from(1)));
}

#[test]
fn quadratic_roots() {
    // x^2 - 5x + 6 = (x - 2)(x - 3)
    let (p, q) = solve_quadratic(&num(1), &num(-5), &num(6));
    assert_eq!((to_bigint(&p), to_bigint(&q)), (BigInt::from(3), BigInt::from(2)));
    // no real roots
    let (p, q) = solve_quadratic(&num(1), &num(0), &num(1));
    assert_eq!((to_bigint(&p), to_bigint(&q)), (BigInt::from(0), BigInt::from(0)));
    // x^2 + 3x - 4 = (x + 4)(x - 1); -7 / 2 rounds to -3
    let (p, q) = solve_quadratic(&num(1), &num(3), &num(-4));
    assert_eq!((to_bigint(&p), to_bigint(&q)), (BigInt::from(1), BigInt::from(-4)));
    // x^2 - 2: the square root of 8 rounds down to 2
    let (p, q) = solve_quadratic(&num(1), &num(0), &num(-2));
    assert_eq!((to_bigint(&p), to_bigint(&q)), (BigInt::from(1), BigInt::from(-1)));
}

#[test]
fn fermat_factorisation_small() {
    // 5959 = 59 * 101: isqrt = 77, a = 78, a^2 - n = 125, x = 11
    let (p, q) = p_q_close(&num(5959));
    assert_eq!((to_bigint(&p), to_bigint(&q)), (BigInt::from(67), BigInt::from(89)));
    // 899 = 29 * 31
    let (p, q) = p_q_close(&num(899));
    assert_eq!((to_bigint(&p), to_bigint(&q)), (BigInt::from(29), BigInt::from(31)));
}

#[test]
fn continued_fraction_stream_u128() {
    let n = big("205320043521075746592613");
    let e = big("70760135995620281241019");
    let mut ps = ContinuedFractionStream::new(e, n);
    ps.gen_all();
    let qs = ps.quotients().clone();
    assert_eq!(qs[0], 0);
    assert!(qs.len() > 2);
    // the quotients rebuild e / n
    let (mut num, mut den) = (BigInt::from(0), BigInt::from(1));
    for q in qs.iter().rev() {
        let next_num = den.clone();
        den = BigInt::from(*q) * den + num;
        num = next_num;
    }
    // [q0; q1, ...] = den / num after the last step
    assert_eq!(den * BigInt::from(205320043521075746592613u128), num * BigInt::from(70760135995620281241019u128));
}

#[test]
fn accept_candidate_keeps_sized_passing_draws() {
    let x = num(0x8000_0001);
    assert_eq!(to_bigint(&accept_candidate(&x, 32, true).unwrap()), BigInt::from(0x8000_0001u64));
    assert!(accept_candidate(&x, 32, false).is_none());
    assert!(accept_candidate(&x, 33, true).is_none());
    for _ in 0..200 {
        if let Some(x) = generate_candidate(0x8000_0001, 64) {
            let v = to_bigint(&x);
            assert!(v >= BigInt::from(0x8000_0001u64) << 32);
            assert!(v < BigInt::from(1) << 64);
        }
    }
}
