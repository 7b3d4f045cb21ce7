//! Interfaces of a 16-byte block cipher.
use vstd::prelude::*;
use crate::aes::key_msg::Key;

verus! {

/// A 16-byte block that can be encrypted and decrypted under a `Key`.
pub trait EncDec: Sized {
    fn new(s: [u8; 16]) -> Self;

    fn encrypt(self, k: &Key) -> [u8; 16];

    fn decrypt(self, k: &Key) -> [u8; 16];

    fn msg(&self) -> [u8; 16];
}

/// Something that can be encrypted under a key.
pub trait Encrypt: Sized {
    fn encrypt(self, k: Key) -> Self;
}

/// Something that can be decrypted under a key.
pub trait Decrypt: Sized {
    fn decrypt(self, k: Key) -> Self;
}

} // verus!
