//! Verified implementations of SHA-3 (Keccak), AES-128 and RSA.
pub mod sha3;
pub mod aes;
pub mod rsa;
pub mod attack_algor;
