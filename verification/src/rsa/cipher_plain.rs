//! Cipher texts and plain texts: an integer each.
use vstd::prelude::*;
use vstd::utf8::{valid_utf8, decode_utf8};
use crate::rsa::bignum::{
    Big, abs, le_bytes_value, le_encoding, parse_decimal, big_from_bytes_le, big_parse,
    big_to_bytes_le,
};

verus! {

/// A cipher text.
#[derive(Debug)]
pub struct Cipher {
    pub fragments: Big,
}

impl Cipher {
    /// The cipher text written in decimal in `s` (which must be an integer in
    /// decimal; see `Big::parse` to test a text).
    pub fn new(s: &str) -> (c: Cipher)
        requires
            parse_decimal(s@) is Some,
        ensures
            c.fragments.value() == parse_decimal(s@).unwrap(),
    {
        match big_parse(s) {
            Some(num) => Cipher { fragments: num },
            None => Cipher { fragments: Big::zero() },
        }
    }

    /// The cipher text whose little-endian bytes are `bytes`.
    pub fn new_from_u8(bytes: &[u8]) -> (c: Cipher)
        ensures
            c.fragments.value() == le_bytes_value(bytes@),
    {
        Cipher { fragments: big_from_bytes_le(bytes) }
    }
}

/// A plain text.
#[derive(Debug)]
pub struct Plaintext {
    pub fragments: Big,
}

/// Why a plain text is not a text.
#[derive(Debug, PartialEq, Eq)]
pub enum PlaintextError {
    /// Its bytes are not UTF-8.
    InvalidUtf8,
}

#[verifier::external_type_specification]
#[verifier::external_body]
pub struct ExFromUtf8Error(std::string::FromUtf8Error);

/// `String::from_utf8`: the text whose UTF-8 encoding is `bytes`; an error
/// exactly where `bytes` is not UTF-8.
#[verifier::external_body]
fn string_from_utf8(bytes: Vec<u8>) -> (r: Result<String, std::string::FromUtf8Error>)
    ensures
        r is Ok <==> valid_utf8(bytes@),
        r matches Ok(s) ==> s@ == decode_utf8(bytes@),
{
    String::from_utf8(bytes)
}

impl Plaintext {
    /// The plain text whose little-endian bytes are `s`.
    pub fn new(s: &[u8]) -> (m: Plaintext)
        ensures
            m.fragments.value() == le_bytes_value(s@),
    {
        Plaintext { fragments: big_from_bytes_le(s) }
    }

    /// The text whose UTF-8 encoding is the shortest little-endian bytes of
    /// the magnitude; an error where those bytes are not UTF-8.
    pub fn into_string(&self) -> (r: Result<String, PlaintextError>)
        ensures
            r is Ok <==> valid_utf8(le_encoding(abs(self.fragments.value()))),
            r matches Ok(s) ==> s@ == decode_utf8(le_encoding(abs(self.fragments.value()))),
            r matches Err(e) ==> e == PlaintextError::InvalidUtf8,
    {
        let (_, bytes) = big_to_bytes_le(&self.fragments);
        match string_from_utf8(bytes) {
            Ok(s) => Ok(s),
            Err(_) => Err(PlaintextError::InvalidUtf8),
        }
    }
}

} // verus!
