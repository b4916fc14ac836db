//! Sealing and opening short secrets with AES-256-GCM. A sealed text is the
//! Base64 form of a nonce followed by the ciphertext.

use vstd::prelude::*;
use vstd::utf8::{decode_utf8, encode_utf8, valid_utf8};

verus! {

/// The length of the nonce that stands before every ciphertext.
pub const NONCE_LEN: usize = 12;

/// The length of an AES-256 key.
pub const KEY_LEN: usize = 32;

/// Why a text could not be sealed or opened.
#[derive(Debug, Clone, Copy, PartialEq, Eq, Structural)]
pub enum CipherError {
    /// The operating system gave no random bytes for a nonce.
    Random,
    /// The cipher refused to encrypt.
    Encryption,
    /// The sealed text is not Base64.
    Base64,
    /// The sealed text is too short to hold a nonce.
    Truncated,
    /// The cipher refused to decrypt: wrong key or altered text.
    Decryption,
    /// The decrypted bytes are not UTF-8.
    Utf8,
}

/// What `encode` of the Base64 engine `STANDARD` returns for `bytes`.
pub uninterp spec fn base64_encoded(bytes: Seq<u8>) -> Seq<char>;

/// What `decode` of the Base64 engine `STANDARD` returns for `text`: the
/// bytes, or `None` where it reports an error.
pub uninterp spec fn base64_decoded(text: Seq<char>) -> Option<Seq<u8>>;

/// What AES-256-GCM encryption under `key` and `nonce`, without associated
/// data, returns for `plaintext`: the ciphertext with its tag, or `None`
/// where the cipher reports an error.
pub uninterp spec fn aes_gcm_sealed(key: Seq<u8>, nonce: Seq<u8>, plaintext: Seq<u8>) -> Option<
    Seq<u8>,
>;

/// What AES-256-GCM decryption under `key` and `nonce`, without associated
/// data, returns for `ciphertext`: the plaintext, or `None` where the
/// cipher reports an error.
pub uninterp spec fn aes_gcm_opened(key: Seq<u8>, nonce: Seq<u8>, ciphertext: Seq<u8>) -> Option<
    Seq<u8>,
>;

/// The bytes of an optional vector.
pub open spec fn bytes_view(r: Option<Vec<u8>>) -> Option<Seq<u8>> {
    match r {
        Some(bytes) => Some(bytes@),
        None => None,
    }
}

/// Calls `encode` of the Base64 engine `general_purpose::STANDARD`.
/// Trusted: the text depends on the bytes alone.
#[verifier::external_body]
pub(crate) fn base64_encode(bytes: &[u8]) -> (text: String)
    ensures
        text@ == base64_encoded(bytes@),
{
    base64::Engine::encode(&base64::engine::general_purpose::STANDARD, bytes)
}

/// Calls `decode` of the Base64 engine `general_purpose::STANDARD` and
/// drops the detail of an error. Trusted: the outcome depends on the text
/// alone.
#[verifier::external_body]
pub(crate) fn base64_decode(text: &str) -> (r: Option<Vec<u8>>)
    ensures
        bytes_view(r) == base64_decoded(text@),
{
    match base64::Engine::decode(&base64::engine::general_purpose::STANDARD, text) {
        Ok(bytes) => Some(bytes),
        Err(_) => None,
    }
}

/// Calls `Aes256Gcm::encrypt` with a cipher made from `key`. Trusted: the
/// outcome depends on key, nonce and plaintext alone. The key must have 32
/// bytes and the nonce 12: the outside crate panics on others.
#[verifier::external_body]
fn aes_gcm_encrypt(key: &[u8], nonce: &[u8], plaintext: &[u8]) -> (r: Option<Vec<u8>>)
    requires
        key@.len() == KEY_LEN,
        nonce@.len() == NONCE_LEN,
    ensures
        bytes_view(r) == aes_gcm_sealed(key@, nonce@, plaintext@),
{
    let cipher = <aes_gcm::Aes256Gcm as aes_gcm::KeyInit>::new(
        aes_gcm::Key::<aes_gcm::Aes256Gcm>::from_slice(key),
    );
    match aes_gcm::aead::Aead::encrypt(&cipher, aes_gcm::Nonce::from_slice(nonce), plaintext) {
        Ok(sealed) => Some(sealed),
        Err(_) => None,
    }
}

/// Calls `Aes256Gcm::decrypt` with a cipher made from `key`. Trusted: the
/// outcome depends on key, nonce and ciphertext alone. The key must have
/// 32 bytes and the nonce 12: the outside crate panics on others.
#[verifier::external_body]
fn aes_gcm_decrypt(key: &[u8], nonce: &[u8], ciphertext: &[u8]) -> (r: Option<Vec<u8>>)
    requires
        key@.len() == KEY_LEN,
        nonce@.len() == NONCE_LEN,
    ensures
        bytes_view(r) == aes_gcm_opened(key@, nonce@, ciphertext@),
{
    let cipher = <aes_gcm::Aes256Gcm as aes_gcm::KeyInit>::new(
        aes_gcm::Key::<aes_gcm::Aes256Gcm>::from_slice(key),
    );
    match aes_gcm::aead::Aead::decrypt(&cipher, aes_gcm::Nonce::from_slice(nonce), ciphertext) {
        Ok(opened) => Some(opened),
        Err(_) => None,
    }
}

/// Fills a nonce with `try_fill_bytes` of the operating system's random
/// number generator; `None` where the generator reports an error. Nothing
/// is known of the bytes, nor of when they come.
#[verifier::external_body]
fn fresh_nonce() -> (nonce: Option<[u8; 12]>) {
    let mut nonce = [0u8; 12];
    match aes_gcm::aead::rand_core::RngCore::try_fill_bytes(&mut aes_gcm::aead::OsRng, &mut nonce) {
        Ok(_) => Some(nonce),
        Err(_) => None,
    }
}

/// Calls `String::from_utf8`. Trusted, as std documents it: the bytes
/// become a string exactly when they are valid UTF-8, and the string then
/// holds the characters that they encode.
#[verifier::external_body]
fn string_from_utf8(bytes: Vec<u8>) -> (r: Option<String>)
    ensures
        r is Some <==> valid_utf8(bytes@),
        r matches Some(text) ==> text@ == decode_utf8(bytes@),
{
    match String::from_utf8(bytes) {
        Ok(text) => Some(text),
        Err(_) => None,
    }
}

/// The sealed form of `plaintext` under `key` and `nonce`: the Base64 text
/// of the nonce followed by the ciphertext.
pub open spec fn sealed_text(plaintext: Seq<char>, key: Seq<u8>, nonce: Seq<u8>) -> Result<
    Seq<char>,
    CipherError,
> {
    match aes_gcm_sealed(key, nonce, encode_utf8(plaintext)) {
        Some(ciphertext) => Ok(base64_encoded(nonce + ciphertext)),
        None => Err(CipherError::Encryption),
    }
}

/// What a sealed text opens to under `key`.
pub open spec fn opened_text(encoded: Seq<char>, key: Seq<u8>) -> Result<Seq<char>, CipherError> {
    match base64_decoded(encoded) {
        None => Err(CipherError::Base64),
        Some(combined) => if combined.len() < NONCE_LEN {
            Err(CipherError::Truncated)
        } else {
            match aes_gcm_opened(
                key,
                combined.subrange(0, NONCE_LEN as int),
                combined.subrange(NONCE_LEN as int, combined.len() as int),
            ) {
                None => Err(CipherError::Decryption),
                Some(plaintext) => if valid_utf8(plaintext) {
                    Ok(decode_utf8(plaintext))
                } else {
                    Err(CipherError::Utf8)
                },
            }
        },
    }
}

/// A text or an error, the text taken as a sequence of characters.
pub open spec fn text_view(r: Result<String, CipherError>) -> Result<Seq<char>, CipherError> {
    match r {
        Ok(text) => Ok(text@),
        Err(error) => Err(error),
    }
}

/// Seals `plaintext` under `key_bytes` with the given nonce.
pub fn encrypt_with_nonce(plaintext: &str, key_bytes: &[u8], nonce: &[u8; 12]) -> (r: Result<
    String,
    CipherError,
>)
    requires
        key_bytes@.len() == KEY_LEN,
    ensures
        text_view(r) == sealed_text(plaintext@, key_bytes@, nonce@),
{
    match aes_gcm_encrypt(key_bytes, nonce.as_slice(), plaintext.as_bytes()) {
        None => Err(CipherError::Encryption),
        Some(ciphertext) => {
            let mut combined: Vec<u8> = Vec::new();
            combined.extend_from_slice(nonce.as_slice());
            combined.extend_from_slice(ciphertext.as_slice());
            assert(combined@ =~= nonce@ + ciphertext@);
            Ok(base64_encode(combined.as_slice()))
        },
    }
}

/// Whether `r` is what sealing `plaintext` under `key` gives with some
/// nonce of twelve bytes.
pub open spec fn sealed_with_some_nonce(
    r: Result<String, CipherError>,
    plaintext: Seq<char>,
    key: Seq<u8>,
) -> bool {
    exists|nonce: Seq<u8>|
        nonce.len() == NONCE_LEN && text_view(r) == #[trigger] sealed_text(plaintext, key, nonce)
}

/// Seals `plaintext` under `key_bytes` with a nonce drawn at random. Where
/// the operating system gives no random bytes, the error `Random` comes
/// back; else the result is the sealed form of the text for some nonce of
/// twelve bytes.
pub fn encrypt(plaintext: &str, key_bytes: &[u8]) -> (r: Result<String, CipherError>)
    requires
        key_bytes@.len() == KEY_LEN,
    ensures
        (r is Err && r->Err_0 == CipherError::Random) || sealed_with_some_nonce(
            r,
            plaintext@,
            key_bytes@,
        ),
{
    match fresh_nonce() {
        None => Err(CipherError::Random),
        Some(nonce) => {
            let r = encrypt_with_nonce(plaintext, key_bytes, &nonce);
            assert(nonce@.len() == NONCE_LEN);
            assert(text_view(r) == sealed_text(plaintext@, key_bytes@, nonce@));
            r
        },
    }
}

/// Opens a sealed text under `key_bytes`.
pub fn decrypt(encoded: &str, key_bytes: &[u8]) -> (r: Result<String, CipherError>)
    requires
        key_bytes@.len() == KEY_LEN,
    ensures
        text_view(r) == opened_text(encoded@, key_bytes@),
{
    let combined = match base64_decode(encoded) {
        None => {
            return Err(CipherError::Base64);
        },
        Some(combined) => combined,
    };
    if combined.len() < NONCE_LEN {
        return Err(CipherError::Truncated);
    }
    let (nonce, ciphertext) = combined.as_slice().split_at(NONCE_LEN);
    match aes_gcm_decrypt(key_bytes, nonce, ciphertext) {
        None => Err(CipherError::Decryption),
        Some(plaintext) => match string_from_utf8(plaintext) {
            None => Err(CipherError::Utf8),
            Some(text) => Ok(text),
        },
    }
}

} // verus!
