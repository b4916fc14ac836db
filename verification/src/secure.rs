//! The key that seals the stored secrets: how its text form is read and
//! written, and how the question whether to make a new one is answered.

pub mod aes;

use crate::secure::aes::{base64_decode, base64_decoded, base64_encode, base64_encoded, KEY_LEN};
use crate::text::{trim, trimmed};
use vstd::prelude::*;
use vstd::string::StringExecFns;
use vstd::utf8::encode_utf8;

verus! {

/// Why the text form of a key was not accepted.
#[derive(Debug, Clone, Copy, PartialEq, Eq, Structural)]
pub enum KeyError {
    /// The text begins with neither `HEX:` nor `B64:`.
    MissingPrefix,
    /// What follows `HEX:` is not hexadecimal.
    InvalidHex,
    /// What follows `B64:` is not Base64.
    InvalidBase64,
    /// The key does not have 32 bytes; holds the length found.
    WrongLength(usize),
}

/// The value of a hexadecimal digit, in either case.
pub open spec fn hex_value(c: u8) -> Option<u8> {
    if 0x30 <= c <= 0x39 {
        Some((c - 0x30) as u8)
    } else if 0x41 <= c <= 0x46 {
        Some((c - 0x41 + 10) as u8)
    } else if 0x61 <= c <= 0x66 {
        Some((c - 0x61 + 10) as u8)
    } else {
        None
    }
}

/// The bytes that a hexadecimal text stands for: each pair of digits gives
/// one byte, the first digit its upper half. `None` where the length is
/// odd or a character is no digit.
pub open spec fn hex_decoded(data: Seq<u8>) -> Option<Seq<u8>> {
    if data.len() % 2 == 0 && forall|i: int| 0 <= i < data.len() ==> hex_value(data[i]) is Some {
        Some(
            Seq::new(
                data.len() / 2,
                |i: int| (hex_value(data[2 * i])->0 * 16 + hex_value(data[2 * i + 1])->0) as u8,
            ),
        )
    } else {
        None
    }
}

/// The bytes of an optional vector.
pub open spec fn decoded_view(r: Option<Vec<u8>>) -> Option<Seq<u8>> {
    match r {
        Some(bytes) => Some(bytes@),
        None => None,
    }
}

/// Calls `hex::decode` and drops the detail of an error. Trusted: it
/// succeeds exactly on an even number of hexadecimal digits and returns
/// the byte of each pair.
#[verifier::external_body]
fn hex_decode(data: &[u8]) -> (r: Option<Vec<u8>>)
    ensures
        decoded_view(r) == hex_decoded(data@),
{
    match hex::decode(data) {
        Ok(bytes) => Some(bytes),
        Err(_) => None,
    }
}

/// An optional rest of a text, as a sequence of characters.
pub open spec fn rest_view(r: Option<&str>) -> Option<Seq<char>> {
    match r {
        Some(rest) => Some(rest@),
        None => None,
    }
}

/// What is left of `text` behind `prefix`; `None` where the text does not
/// begin with it.
pub open spec fn stripped(text: Seq<char>, prefix: Seq<char>) -> Option<Seq<char>> {
    if prefix.is_prefix_of(text) {
        Some(text.subrange(prefix.len() as int, text.len() as int))
    } else {
        None
    }
}

/// Calls `str::strip_prefix` with a string pattern. Trusted, as std
/// documents it: where the text starts with the prefix, the part behind
/// it comes back, else `None`.
#[verifier::external_body]
fn strip_prefix<'a>(text: &'a str, prefix: &str) -> (r: Option<&'a str>)
    ensures
        rest_view(r) == stripped(text@, prefix@),
{
    text.strip_prefix(prefix)
}

/// What `str::to_lowercase` returns for `text`.
pub uninterp spec fn lowercased(text: Seq<char>) -> Seq<char>;

/// Calls `str::to_lowercase`. Trusted: the result depends on the text
/// alone.
#[verifier::external_body]
fn to_lowercase(text: &str) -> (r: String)
    ensures
        r@ == lowercased(text@),
{
    text.to_lowercase()
}

/// The bytes that the text form of a key stands for, whatever their
/// number: hexadecimal behind `HEX:`, Base64 behind `B64:`.
pub open spec fn key_bytes_of(raw: Seq<char>) -> Result<Seq<u8>, KeyError> {
    if let Some(hex) = stripped(raw, "HEX:"@) {
        match hex_decoded(encode_utf8(hex)) {
            Some(bytes) => Ok(bytes),
            None => Err(KeyError::InvalidHex),
        }
    } else if let Some(b64) = stripped(raw, "B64:"@) {
        match base64_decoded(b64) {
            Some(bytes) => Ok(bytes),
            None => Err(KeyError::InvalidBase64),
        }
    } else {
        Err(KeyError::MissingPrefix)
    }
}

/// The key that a text form stands for: its bytes, if there are 32.
pub open spec fn key_of(raw: Seq<char>) -> Result<Seq<u8>, KeyError> {
    match key_bytes_of(raw) {
        Ok(bytes) => if bytes.len() == KEY_LEN {
            Ok(bytes)
        } else {
            Err(KeyError::WrongLength(bytes.len() as usize))
        },
        Err(error) => Err(error),
    }
}

/// A key or an error, the key taken as a sequence of bytes.
pub open spec fn key_view(r: Result<[u8; 32], KeyError>) -> Result<Seq<u8>, KeyError> {
    match r {
        Ok(key) => Ok(key@),
        Err(error) => Err(error),
    }
}

/// Reads a key from its text form: `HEX:` followed by hexadecimal digits,
/// or `B64:` followed by Base64. The key must have 32 bytes.
pub fn parse_key(raw: &str) -> (r: Result<[u8; 32], KeyError>)
    ensures
        key_view(r) == key_of(raw@),
{
    let key_bytes = if let Some(hex) = strip_prefix(raw, "HEX:") {
        match hex_decode(hex.as_bytes()) {
            Some(bytes) => bytes,
            None => {
                return Err(KeyError::InvalidHex);
            },
        }
    } else if let Some(b64) = strip_prefix(raw, "B64:") {
        match base64_decode(b64) {
            Some(bytes) => bytes,
            None => {
                return Err(KeyError::InvalidBase64);
            },
        }
    } else {
        return Err(KeyError::MissingPrefix);
    };
    if key_bytes.len() != KEY_LEN {
        return Err(KeyError::WrongLength(key_bytes.len()));
    }
    let mut key = [0u8;32];
    let mut i: usize = 0;
    while i < KEY_LEN
        invariant
            i <= KEY_LEN,
            key_bytes@.len() == KEY_LEN,
            forall|j: int| 0 <= j < i ==> key@[j] == key_bytes@[j],
        decreases KEY_LEN - i,
    {
        key[i] = key_bytes[i];
        i += 1;
    }
    assert(key@ =~= key_bytes@);
    Ok(key)
}

/// The text form in which a new key is shown to its owner.
pub open spec fn key_text_of(key: Seq<u8>) -> Seq<char> {
    "B64:"@ + base64_encoded(key)
}

/// Writes a key in its text form: `B64:` followed by the Base64 of its
/// bytes.
pub fn key_text(key: &[u8; 32]) -> (text: String)
    ensures
        text@ == key_text_of(key@),
{
    let encoded = base64_encode(key.as_slice());
    "B64:".to_owned().concat(encoded.as_str())
}

/// Whether an answer agrees to generating a new key: it is `y`, in either
/// case and with any white space around it.
pub open spec fn agrees(answer: Seq<char>) -> bool {
    lowercased(trimmed(answer)) == "y"@
}

/// Whether the answer to the question "generate a new key?" is a yes.
pub fn confirms(answer: &str) -> (yes: bool)
    ensures
        yes == agrees(answer@),
{
    to_lowercase(trim(answer)) == "y".to_owned()
}

} // verus!
