//! Files that hold a key of thirty-two bytes, in hexadecimal.

use vstd::prelude::*;
use vstd::string::*;
use vstd::utf8::*;

use crate::bytes::thirty_two;
use crate::chance::random_32;
use crate::grant::{ed25519_is_key, GrantVerifier};
use crate::hex::{
    all_hex, digits_spell_bytes, hex, hex_is_all_hex, hex_text, is_all_hex, unhex_bytes,
    unhex_of_hex, unhex_raw,
};
use crate::parse::{is_space, trim, trimmed, trimming_keeps_plain_text};

verus! {

/// Why a file is refused.
#[derive(Debug, Clone, Copy, PartialEq, Eq, Structural)]
pub enum KeyFileError {
    /// Others than its owner can read or write it.
    Exposed,
    /// It does not hold sixty-four hexadecimal digits.
    NotSixtyFourDigits,
    /// Its digits are none.
    NotHexadecimal,
    /// Its bytes are no public key.
    NotAKey,
}

/// The seed that the text of a file holds, white space around it aside.
pub open spec fn seed_of(text: Seq<char>) -> Option<Seq<u8>> {
    let raw = encode_utf8(trimmed(text));
    if raw.len() == 64 && all_hex(raw) {
        unhex_bytes(raw)
    } else {
        None
    }
}

/// The seed of a signing key that the text of a file holds.
pub fn parse_grant_key(text: &str) -> (r: Result<[u8; 32], KeyFileError>)
    ensures
        r is Ok <==> seed_of(text@) is Some,
        r matches Ok(seed) ==> seed_of(text@) == Some(seed@),
        r matches Err(e) ==> e == KeyFileError::NotSixtyFourDigits,
{
    let inner: String = trim(text);
    let raw: &[u8] = inner.as_str().as_bytes();
    if raw.len() != 64 || !is_all_hex(raw) {
        return Err(KeyFileError::NotSixtyFourDigits);
    }
    proof {
        digits_spell_bytes(raw@);
    }
    match unhex_raw(raw) {
        Some(bytes) => match thirty_two(bytes.as_slice()) {
            Some(seed) => Ok(seed),
            None => Err(KeyFileError::NotSixtyFourDigits),
        },
        None => Err(KeyFileError::NotSixtyFourDigits),
    }
}

/// A fresh seed, and the text that its file holds.
pub fn new_grant_key() -> (r: ([u8; 32], String))
    ensures
        r.1@ == hex_text(r.0@),
{
    let seed: [u8; 32] = random_32();
    let text: String = hex(seed.as_slice());
    (seed, text)
}

/// A seed that was written to its file is read back from it.
pub proof fn seeds_read_back(seed: Seq<u8>)
    requires
        seed.len() == 32,
    ensures
        seed_of(hex_text(seed)) == Some(seed),
{
    let text = hex_text(seed);
    assert forall|i: int| 0 <= i < text.len() implies !is_space(#[trigger] text[i]) by {}
    trimming_keeps_plain_text(text);
    hex_is_all_hex(seed);
    unhex_of_hex(seed);
}

/// Checks who can use a file: nobody but its owner.
pub fn check_mode(mode: u32) -> (r: Result<(), KeyFileError>)
    ensures
        r is Ok <==> mode % 64 == 0,
        r matches Err(e) ==> e == KeyFileError::Exposed,
{
    if mode % 64 != 0 {
        Err(KeyFileError::Exposed)
    } else {
        Ok(())
    }
}

/// The public key that the text of a file holds, white space around it aside,
/// or why it holds none.
pub open spec fn public_key_of(text: Seq<char>) -> Result<Seq<u8>, KeyFileError> {
    let raw = encode_utf8(trimmed(text));
    if raw.len() != 64 {
        Err(KeyFileError::NotSixtyFourDigits)
    } else {
        match unhex_bytes(raw) {
            None => Err(KeyFileError::NotHexadecimal),
            Some(bytes) => if ed25519_is_key(bytes) {
                Ok(bytes)
            } else {
                Err(KeyFileError::NotAKey)
            },
        }
    }
}

/// The verifier of the public key that the text of a file holds.
pub fn parse_grant_verifier(text: &str) -> (r: Result<GrantVerifier, KeyFileError>)
    ensures
        match r {
            Ok(v) => public_key_of(text@) == Ok::<Seq<u8>, KeyFileError>(v.public()),
            Err(e) => public_key_of(text@) == Err::<Seq<u8>, KeyFileError>(e),
        },
{
    let inner: String = trim(text);
    let raw: &[u8] = inner.as_str().as_bytes();
    if raw.len() != 64 {
        return Err(KeyFileError::NotSixtyFourDigits);
    }
    match unhex_raw(raw) {
        None => Err(KeyFileError::NotHexadecimal),
        Some(bytes) => match thirty_two(bytes.as_slice()) {
            Some(key) => match GrantVerifier::from_public_bytes(&key) {
                Ok(v) => Ok(v),
                Err(_) => Err(KeyFileError::NotAKey),
            },
            None => Err(KeyFileError::NotSixtyFourDigits),
        },
    }
}

} // verus!
