//! A 256-bit random key.
use vstd::prelude::*;
use crate::aes::key_msg::fill_random;

verus! {

/// 32 key bytes.
#[derive(Debug)]
pub struct Key(pub [u8; 32]);

impl Key {
    /// A key of 32 random bytes.
    pub fn new() -> (k: Key)
        ensures
            k.0@.len() == 32,
    {
        let mut k = [0u8; 32];
        fill_random(&mut k);
        Key(k)
    }
}

} // verus!
