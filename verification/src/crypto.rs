//! Sealing a paste for storage and opening it again.
//!
//! A paste is sealed with AES-256 in Galois/Counter mode under a fresh 96-bit
//! nonce. What is stored is the hexadecimal text of the nonce followed by the
//! ciphertext and its 16-byte authentication tag; the plain text never is.

use vstd::prelude::*;
use vstd::slice::*;
use vstd::string::*;
use vstd::utf8::*;
use aes_gcm::aead::rand_core::RngCore;
use aes_gcm::aead::{Aead, OsRng};
use aes_gcm::{Aes256Gcm, Key, KeyInit, Nonce};
use crate::error::PasteError;
use crate::hexcode::{from_hex, hex_bytes, hex_text, is_hex, lemma_hex_round_trip, to_hex};

verus! {

/// Length of a key, in bytes.
pub const KEY_LEN: usize = 32;

/// Length of a nonce, in bytes.
pub const NONCE_LEN: usize = 12;

/// Length of an authentication tag, in bytes.
pub const TAG_LEN: usize = 16;

/// The longest plain text that the cipher seals, in bytes.
pub const MAX_PLAINTEXT_LEN: u64 = 0x10_0000_0000;

/// The ciphertext of `plaintext` under `key` and `nonce`, followed by its
/// authentication tag: what AES-256-GCM computes, with no associated data.
pub uninterp spec fn aes256_gcm_seal(key: Seq<u8>, nonce: Seq<u8>, plaintext: Seq<u8>) -> Seq<u8>;

/// The plain text that `sealed` opens to under `key` and `nonce`, or `None`
/// where the authentication tag at its end does not match.
pub uninterp spec fn aes256_gcm_open(key: Seq<u8>, nonce: Seq<u8>, sealed: Seq<u8>) -> Option<
    Seq<u8>,
>;

#[verifier::external_type_specification]
#[verifier::external_body]
pub struct ExCipherError(aes_gcm::Error);

/// Calls `Aes256Gcm::encrypt` with a key and a nonce made by `from_slice`,
/// which panics on another length than 32 and 12. Trusted: the call fails
/// exactly on a plain text of more than 2^36 bytes; otherwise it returns the
/// named ciphertext with its tag, 16 bytes longer than the plain text, and
/// that ciphertext opens to the plain text again under the same key and nonce.
#[verifier::external_body]
fn cipher_seal(key: &[u8], nonce: &[u8], plaintext: &[u8]) -> (r: Result<Vec<u8>, aes_gcm::Error>)
    requires
        key@.len() == KEY_LEN,
        nonce@.len() == NONCE_LEN,
    ensures
        r is Ok <==> plaintext@.len() <= MAX_PLAINTEXT_LEN,
        r matches Ok(c) ==> c@ == aes256_gcm_seal(key@, nonce@, plaintext@),
        r matches Ok(c) ==> c@.len() == plaintext@.len() + TAG_LEN,
        r matches Ok(c) ==> aes256_gcm_open(key@, nonce@, c@) == Some(plaintext@),
{
    let cipher = Aes256Gcm::new(Key::<Aes256Gcm>::from_slice(key));
    cipher.encrypt(Nonce::from_slice(nonce), plaintext)
}

/// Calls `Aes256Gcm::decrypt` with a key and a nonce made by `from_slice`,
/// which panics on another length than 32 and 12. Trusted: the call returns
/// the named plain text, or fails where there is none; what it returns is 16
/// bytes shorter than what it was given.
#[verifier::external_body]
fn cipher_open(key: &[u8], nonce: &[u8], sealed: &[u8]) -> (r: Result<Vec<u8>, aes_gcm::Error>)
    requires
        key@.len() == KEY_LEN,
        nonce@.len() == NONCE_LEN,
    ensures
        r matches Ok(p) ==> aes256_gcm_open(key@, nonce@, sealed@) == Some(p@),
        r is Err ==> aes256_gcm_open(key@, nonce@, sealed@) is None,
        r matches Ok(p) ==> p@.len() + TAG_LEN == sealed@.len(),
{
    let cipher = Aes256Gcm::new(Key::<Aes256Gcm>::from_slice(key));
    cipher.decrypt(Nonce::from_slice(nonce), sealed)
}

/// Calls `OsRng.try_fill_bytes` on 12 bytes. Nothing is claimed of the bytes
/// that come back; `None` stands for a failure of the system's random source.
#[verifier::external_body]
fn random_nonce() -> (r: Option<[u8; 12]>)
{
    let mut bytes = [0u8; 12];
    match OsRng.try_fill_bytes(&mut bytes) {
        Ok(()) => Some(bytes),
        Err(_) => None,
    }
}

/// Calls `String::from_utf8`. Trusted: success exactly on valid UTF-8, and
/// then the text that the bytes encode.
#[verifier::external_body]
fn text_from_utf8(bytes: Vec<u8>) -> (r: Option<String>)
    ensures
        r is Some <==> valid_utf8(bytes@),
        r matches Some(s) ==> s@ == decode_utf8(bytes@),
{
    match String::from_utf8(bytes) {
        Ok(s) => Some(s),
        Err(_) => None,
    }
}

/// The stored form of a sealed paste: nonce, ciphertext and tag, in hexadecimal.
pub open spec fn blob_text(nonce: Seq<u8>, sealed: Seq<u8>) -> Seq<char> {
    hex_text(nonce + sealed)
}

/// What sealing `plaintext` under `key` and `nonce` gives.
pub open spec fn sealed_with(key: Seq<u8>, nonce: Seq<u8>, plaintext: Seq<u8>) -> Result<
    Seq<char>,
    PasteError,
> {
    if key.len() != KEY_LEN {
        Err(PasteError::KeyUnavailable)
    } else if plaintext.len() > MAX_PLAINTEXT_LEN {
        Err(PasteError::EncryptionFailure)
    } else {
        Ok(blob_text(nonce, aes256_gcm_seal(key, nonce, plaintext)))
    }
}

/// The number of characters that a sealed plain text of `len` bytes takes in
/// the store: two for each byte of the nonce, of the plain text, and of the
/// tag.
pub open spec fn stored_len(len: nat) -> nat {
    2 * (NONCE_LEN as nat + len + TAG_LEN as nat)
}

/// Whether `blob` is what sealing `plaintext` under `key` gives for some nonce.
pub open spec fn is_sealing(key: Seq<u8>, plaintext: Seq<u8>, blob: Seq<char>) -> bool {
    exists|nonce: Seq<u8>|
        nonce.len() == NONCE_LEN && #[trigger] sealed_with(key, nonce, plaintext) == Ok::<
            Seq<char>,
            PasteError,
        >(blob)
}

/// What opening the stored text `blob` under `key` gives.
pub open spec fn opened(key: Seq<u8>, blob: Seq<char>) -> Result<Seq<u8>, PasteError> {
    if key.len() != KEY_LEN {
        Err(PasteError::KeyUnavailable)
    } else if !is_hex(blob) || hex_bytes(blob).len() < NONCE_LEN {
        Err(PasteError::MalformedEncoding)
    } else {
        let data = hex_bytes(blob);
        match aes256_gcm_open(key, data.take(NONCE_LEN as int), data.skip(NONCE_LEN as int)) {
            None => Err(PasteError::IntegrityFailure),
            Some(plaintext) => Ok(plaintext),
        }
    }
}

/// What opening the stored text `blob` under `key` gives as a text: bytes
/// that are no UTF-8 are a malformed encoding.
pub open spec fn opened_text(key: Seq<u8>, blob: Seq<char>) -> Result<Seq<char>, PasteError> {
    match opened(key, blob) {
        Ok(plaintext) => if valid_utf8(plaintext) {
            Ok(decode_utf8(plaintext))
        } else {
            Err(PasteError::MalformedEncoding)
        },
        Err(e) => Err(e),
    }
}

/// The characters of an optional text.
pub open spec fn text_of(text: Option<&str>) -> Option<Seq<char>> {
    match text {
        Some(t) => Some(t@),
        None => None,
    }
}

/// What reading the configured key gives.
pub open spec fn key_of(configured: Option<Seq<char>>) -> Result<Seq<u8>, PasteError> {
    match configured {
        Some(text) => if is_hex(text) && hex_bytes(text).len() == KEY_LEN {
            Ok(hex_bytes(text))
        } else {
            Err(PasteError::KeyUnavailable)
        },
        None => Err(PasteError::KeyUnavailable),
    }
}

/// A stored text whose ciphertext opens to `plaintext` opens to `plaintext`.
pub proof fn lemma_blob_opens(key: Seq<u8>, nonce: Seq<u8>, sealed: Seq<u8>, plaintext: Seq<u8>)
    requires
        key.len() == KEY_LEN,
        nonce.len() == NONCE_LEN,
        aes256_gcm_open(key, nonce, sealed) == Some(plaintext),
    ensures
        opened(key, blob_text(nonce, sealed)) == Ok::<Seq<u8>, PasteError>(plaintext),
{
    let data = nonce + sealed;
    lemma_hex_round_trip(data);
    assert(data.take(NONCE_LEN as int) =~= nonce);
    assert(data.skip(NONCE_LEN as int) =~= sealed);
}

/// A stored text that opens to the UTF-8 bytes of a text opens to that text.
pub proof fn lemma_text_opens(key: Seq<u8>, blob: Seq<char>, text: Seq<char>)
    requires
        opened(key, blob) == Ok::<Seq<u8>, PasteError>(encode_utf8(text)),
    ensures
        opened_text(key, blob) == Ok::<Seq<char>, PasteError>(text),
{
    encode_utf8_valid_utf8(text);
    encode_utf8_decode_utf8(text);
}

/// Seals `plaintext` under `key` and the given nonce, and writes the result
/// down for storage.
///
/// A nonce must never be used twice with one key: `encrypt` draws a fresh one
/// for each call and is the function to use.
pub fn encrypt_with_nonce(plaintext: &[u8], key: &[u8], nonce: &[u8; 12]) -> (r: Result<
    String,
    PasteError,
>)
    ensures
        match r {
            Ok(blob) => sealed_with(key@, nonce@, plaintext@) == Ok::<Seq<char>, PasteError>(
                blob@,
            ),
            Err(e) => sealed_with(key@, nonce@, plaintext@) == Err::<Seq<char>, PasteError>(e),
        },
        r matches Ok(blob) ==> opened(key@, blob@) == Ok::<Seq<u8>, PasteError>(plaintext@),
        r matches Ok(blob) ==> is_hex(blob@) && blob@.len() == stored_len(plaintext@.len()),
{
    if key.len() != KEY_LEN {
        return Err(PasteError::KeyUnavailable);
    }
    match cipher_seal(key, nonce.as_slice(), plaintext) {
        Err(_) => Err(PasteError::EncryptionFailure),
        Ok(sealed) => {
            let mut combined = slice_to_vec(nonce.as_slice());
            combined.extend_from_slice(sealed.as_slice());
            proof {
                assert(combined@ =~= nonce@ + sealed@);
                lemma_blob_opens(key@, nonce@, sealed@, plaintext@);
                lemma_hex_round_trip(combined@);
            }
            Ok(to_hex(combined.as_slice()))
        },
    }
}

/// Seals `plaintext` under `key` and a fresh random nonce, and writes the
/// result down for storage.
///
/// Fails with `KeyUnavailable` when the key is not 256 bits long, and with
/// `EncryptionFailure` when the plain text is longer than the cipher seals or
/// the system's random source fails. What it returns opens to `plaintext`
/// again under the same key.
pub fn encrypt(plaintext: &[u8], key: &[u8]) -> (r: Result<String, PasteError>)
    ensures
        key@.len() != KEY_LEN ==> (r matches Err(e) && e == PasteError::KeyUnavailable),
        key@.len() == KEY_LEN ==> (r matches Err(e) ==> e == PasteError::EncryptionFailure),
        key@.len() == KEY_LEN && plaintext@.len() > MAX_PLAINTEXT_LEN ==> r is Err,
        r matches Ok(blob) ==> is_sealing(key@, plaintext@, blob@),
        r matches Ok(blob) ==> opened(key@, blob@) == Ok::<Seq<u8>, PasteError>(plaintext@),
        r matches Ok(blob) ==> is_hex(blob@) && blob@.len() == stored_len(plaintext@.len()),
{
    if key.len() != KEY_LEN {
        return Err(PasteError::KeyUnavailable);
    }
    match random_nonce() {
        None => Err(PasteError::EncryptionFailure),
        Some(nonce) => {
            let r = encrypt_with_nonce(plaintext, key, &nonce);
            proof {
                if r is Ok {
                    assert(sealed_with(key@, nonce@, plaintext@) is Ok);
                }
            }
            r
        },
    }
}

/// Opens a stored text under `key`.
///
/// Fails with `KeyUnavailable` when the key is not 256 bits long; with
/// `MalformedEncoding` when the text is not hexadecimal or is shorter than a
/// nonce; and with `IntegrityFailure` when the authentication tag does not
/// match. No part of a plain text is returned with a failure.
pub fn decrypt(encrypted_text: &str, key: &[u8]) -> (r: Result<Vec<u8>, PasteError>)
    ensures
        match r {
            Ok(plaintext) => opened(key@, encrypted_text@) == Ok::<Seq<u8>, PasteError>(
                plaintext@,
            ),
            Err(e) => opened(key@, encrypted_text@) == Err::<Seq<u8>, PasteError>(e),
        },
{
    if key.len() != KEY_LEN {
        return Err(PasteError::KeyUnavailable);
    }
    let data = match from_hex(encrypted_text) {
        Ok(data) => data,
        Err(e) => {
            return Err(e);
        },
    };
    if data.len() < NONCE_LEN {
        return Err(PasteError::MalformedEncoding);
    }
    let (nonce, sealed) = data.as_slice().split_at(NONCE_LEN);
    proof {
        assert(nonce@ =~= data@.take(NONCE_LEN as int));
        assert(sealed@ =~= data@.skip(NONCE_LEN as int));
    }
    match cipher_open(key, nonce, sealed) {
        Err(_) => Err(PasteError::IntegrityFailure),
        Ok(plaintext) => Ok(plaintext),
    }
}

/// Seals the text of a paste under `key` and a fresh random nonce: `encrypt`
/// on its UTF-8 bytes. What it returns opens to `plain_text` again under the
/// same key.
pub fn encrypt_paste(plain_text: &str, key: &[u8]) -> (r: Result<String, PasteError>)
    ensures
        key@.len() != KEY_LEN ==> (r matches Err(e) && e == PasteError::KeyUnavailable),
        key@.len() == KEY_LEN ==> (r matches Err(e) ==> e == PasteError::EncryptionFailure),
        key@.len() == KEY_LEN && encode_utf8(plain_text@).len() > MAX_PLAINTEXT_LEN ==> r is Err,
        r matches Ok(blob) ==> is_sealing(key@, encode_utf8(plain_text@), blob@),
        r matches Ok(blob) ==> opened_text(key@, blob@) == Ok::<Seq<char>, PasteError>(
            plain_text@,
        ),
        r matches Ok(blob) ==> is_hex(blob@) && blob@.len() == stored_len(
            encode_utf8(plain_text@).len(),
        ),
{
    match encrypt(plain_text.as_bytes(), key) {
        Ok(blob) => {
            proof {
                lemma_text_opens(key@, blob@, plain_text@);
            }
            Ok(blob)
        },
        Err(e) => Err(e),
    }
}

/// Opens the stored text of a paste under `key`: `decrypt`, and the bytes
/// read as UTF-8. Bytes that are no UTF-8 are a `MalformedEncoding`.
pub fn decrypt_paste(encrypted_text: &str, key: &[u8]) -> (r: Result<String, PasteError>)
    ensures
        match r {
            Ok(text) => opened_text(key@, encrypted_text@) == Ok::<Seq<char>, PasteError>(text@),
            Err(e) => opened_text(key@, encrypted_text@) == Err::<Seq<char>, PasteError>(e),
        },
{
    match decrypt(encrypted_text, key) {
        Err(e) => Err(e),
        Ok(plaintext) => match text_from_utf8(plaintext) {
            Some(text) => Ok(text),
            None => Err(PasteError::MalformedEncoding),
        },
    }
}

/// Reads the key from its configured hexadecimal text.
///
/// Fails with `KeyUnavailable` when no text is configured, when it is not
/// hexadecimal, and when it does not stand for exactly 32 bytes.
pub fn get_key_bytes(configured: Option<&str>) -> (r: Result<Vec<u8>, PasteError>)
    ensures
        match r {
            Ok(key) => key_of(text_of(configured)) == Ok::<Seq<u8>, PasteError>(key@),
            Err(e) => key_of(text_of(configured)) == Err::<Seq<u8>, PasteError>(e),
        },
{
    match configured {
        None => Err(PasteError::KeyUnavailable),
        Some(text) => match from_hex(text) {
            Err(_) => Err(PasteError::KeyUnavailable),
            Ok(key) => if key.len() == KEY_LEN {
                Ok(key)
            } else {
                Err(PasteError::KeyUnavailable)
            },
        },
    }
}

} // verus!
