//! RSA keys, primality testing and attacks on weak keys.
pub mod bignum;
pub mod primality_test;
pub mod number_theory;
pub mod cipher_plain;
pub mod key;
pub mod attack;
