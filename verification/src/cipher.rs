//! A uniform authenticated-encryption surface over AES-256-GCM and
//! XChaCha20-Poly1305. Each primitive is named rather than restated: sealing
//! appends a 16-byte tag, and opening what was sealed with the same key,
//! nonce and associated data gives the plaintext back.

use vstd::prelude::*;
use aes_gcm::KeyInit;
use aes_gcm::aead::Aead;
use crate::error::CoreError;
use crate::global::{CipherType, TAG_LEN, spec_nonce_len, nonce_len};

verus! {

/// Ciphertext-with-tag that AES-256-GCM produces from (key, nonce, aad,
/// plaintext); a function of those four values alone.
pub uninterp spec fn aes_seal_of(key: Seq<u8>, nonce: Seq<u8>, aad: Seq<u8>, pt: Seq<u8>) -> Seq<u8>;

/// What AES-256-GCM decryption returns for (key, nonce, aad, ciphertext):
/// the plaintext when the tag verifies, nothing otherwise.
pub uninterp spec fn aes_open_of(key: Seq<u8>, nonce: Seq<u8>, aad: Seq<u8>, ct: Seq<u8>) -> Option<Seq<u8>>;

/// Ciphertext-with-tag that XChaCha20-Poly1305 produces from (key, nonce,
/// aad, plaintext); a function of those four values alone.
pub uninterp spec fn xchacha_seal_of(key: Seq<u8>, nonce: Seq<u8>, aad: Seq<u8>, pt: Seq<u8>) -> Seq<u8>;

/// What XChaCha20-Poly1305 decryption returns for (key, nonce, aad,
/// ciphertext): the plaintext when the tag verifies, nothing otherwise.
pub uninterp spec fn xchacha_open_of(key: Seq<u8>, nonce: Seq<u8>, aad: Seq<u8>, ct: Seq<u8>) -> Option<Seq<u8>>;

/// Whether the primitive accepts a payload of this size: AES-256-GCM seals
/// at most 2^36 - 32 bytes of plaintext with at most 2^61 - 1 bytes of
/// associated data, and XChaCha20-Poly1305 at most one byte short of 2^32
/// ChaCha blocks of 64 bytes. Within these bounds sealing always succeeds.
pub open spec fn spec_seal_accepts(cipher: CipherType, pt_len: nat, aad_len: nat) -> bool {
    match cipher {
        CipherType::AesGcm => pt_len <= 0xFFFFFFFE0 && aad_len <= 0x1FFFFFFFFFFFFFFF,
        CipherType::XChaCha20Poly1305 => pt_len / 64 < 0xFFFFFFFF,
    }
}

/// Sealing under `cipher`: ciphertext followed by the 16-byte tag.
pub open spec fn seal_of(cipher: CipherType, key: Seq<u8>, nonce: Seq<u8>, aad: Seq<u8>, pt: Seq<u8>) -> Seq<u8> {
    match cipher {
        CipherType::AesGcm => aes_seal_of(key, nonce, aad, pt),
        CipherType::XChaCha20Poly1305 => xchacha_seal_of(key, nonce, aad, pt),
    }
}

/// Opening under `cipher`: the plaintext when the tag verifies.
pub open spec fn open_of(cipher: CipherType, key: Seq<u8>, nonce: Seq<u8>, aad: Seq<u8>, ct: Seq<u8>) -> Option<Seq<u8>> {
    match cipher {
        CipherType::AesGcm => aes_open_of(key, nonce, aad, ct),
        CipherType::XChaCha20Poly1305 => xchacha_open_of(key, nonce, aad, ct),
    }
}

/// Relies on aes_gcm::Aes256Gcm with aead::Aead::encrypt: the result is
/// ciphertext plus a 16-byte postfix tag, a function of key, nonce, aad and
/// plaintext alone, and decrypting it with the same parameters returns the
/// plaintext. It fails exactly when the plaintext or the associated data is
/// longer than the crate's documented limits.
#[verifier::external_body]
fn aes_gcm_seal(key: &[u8], nonce: &[u8], aad: &[u8], pt: &[u8]) -> (r: Result<Vec<u8>, CoreError>)
    requires
        key@.len() == 32,
        nonce@.len() == 12,
    ensures
        r is Ok <==> spec_seal_accepts(CipherType::AesGcm, pt@.len(), aad@.len()),
        r matches Ok(c) ==> c@ == aes_seal_of(key@, nonce@, aad@, pt@),
        r matches Ok(c) ==> c@.len() == pt@.len() + TAG_LEN,
        r matches Ok(c) ==> aes_open_of(key@, nonce@, aad@, c@) == Some(pt@),
        r matches Err(e) ==> e == CoreError::CipherError,
{
    let cipher = aes_gcm::Aes256Gcm::new_from_slice(key).map_err(|_| CoreError::CipherError)?;
    let n = aes_gcm::Nonce::try_from(nonce).map_err(|_| CoreError::CipherError)?;
    cipher
        .encrypt(&n, aes_gcm::aead::Payload { msg: pt, aad })
        .map_err(|_| CoreError::CipherError)
}

/// Relies on aes_gcm::Aes256Gcm with aead::Aead::decrypt: it returns the
/// plaintext exactly when the tag verifies, and an error otherwise.
#[verifier::external_body]
fn aes_gcm_open(key: &[u8], nonce: &[u8], aad: &[u8], ct: &[u8]) -> (r: Result<Vec<u8>, CoreError>)
    requires
        key@.len() == 32,
        nonce@.len() == 12,
    ensures
        r is Ok <==> aes_open_of(key@, nonce@, aad@, ct@) is Some,
        r matches Ok(p) ==> aes_open_of(key@, nonce@, aad@, ct@) == Some(p@),
        r matches Err(e) ==> e == CoreError::AuthenticationFailed,
{
    let cipher = aes_gcm::Aes256Gcm::new_from_slice(key).map_err(|_| CoreError::AuthenticationFailed)?;
    let n = aes_gcm::Nonce::try_from(nonce).map_err(|_| CoreError::AuthenticationFailed)?;
    cipher
        .decrypt(&n, aes_gcm::aead::Payload { msg: ct, aad })
        .map_err(|_| CoreError::AuthenticationFailed)
}

/// Relies on chacha20poly1305::XChaCha20Poly1305 with aead::Aead::encrypt:
/// the result is ciphertext plus a 16-byte postfix tag, a function of key,
/// nonce, aad and plaintext alone, and decrypting it with the same parameters
/// returns the plaintext. It fails exactly when the plaintext would need
/// more cipher blocks than the crate's documented limit.
#[verifier::external_body]
fn xchacha_seal(key: &[u8], nonce: &[u8], aad: &[u8], pt: &[u8]) -> (r: Result<Vec<u8>, CoreError>)
    requires
        key@.len() == 32,
        nonce@.len() == 24,
    ensures
        r is Ok <==> spec_seal_accepts(CipherType::XChaCha20Poly1305, pt@.len(), aad@.len()),
        r matches Ok(c) ==> c@ == xchacha_seal_of(key@, nonce@, aad@, pt@)
            && c@.len() == pt@.len() + TAG_LEN
            && xchacha_open_of(key@, nonce@, aad@, c@) == Some(pt@),
        r matches Err(e) ==> e == CoreError::CipherError,
{
    let cipher = chacha20poly1305::XChaCha20Poly1305::new_from_slice(key).map_err(|_| CoreError::CipherError)?;
    let n = chacha20poly1305::XNonce::try_from(nonce).map_err(|_| CoreError::CipherError)?;
    cipher
        .encrypt(&n, chacha20poly1305::aead::Payload { msg: pt, aad })
        .map_err(|_| CoreError::CipherError)
}

/// Relies on chacha20poly1305::XChaCha20Poly1305 with aead::Aead::decrypt: it
/// returns the plaintext exactly when the tag verifies, and an error
/// otherwise.
#[verifier::external_body]
fn xchacha_open(key: &[u8], nonce: &[u8], aad: &[u8], ct: &[u8]) -> (r: Result<Vec<u8>, CoreError>)
    requires
        key@.len() == 32,
        nonce@.len() == 24,
    ensures
        r is Ok <==> xchacha_open_of(key@, nonce@, aad@, ct@) is Some,
        r matches Ok(p) ==> xchacha_open_of(key@, nonce@, aad@, ct@) == Some(p@),
        r matches Err(e) ==> e == CoreError::AuthenticationFailed,
{
    let cipher = chacha20poly1305::XChaCha20Poly1305::new_from_slice(key).map_err(|_| CoreError::AuthenticationFailed)?;
    let n = chacha20poly1305::XNonce::try_from(nonce).map_err(|_| CoreError::AuthenticationFailed)?;
    cipher
        .decrypt(&n, chacha20poly1305::aead::Payload { msg: ct, aad })
        .map_err(|_| CoreError::AuthenticationFailed)
}

/// Seal one chunk under `cipher`. A nonce of the wrong length for the chosen
/// cipher is an internal error; with the right length, sealing succeeds
/// exactly for payloads within the primitive's size bounds, and on success
/// the result is exactly its output, tag included.
pub fn encrypt_chunk(cipher: CipherType, key: &[u8], nonce: &[u8], aad: &[u8], pt: &[u8]) -> (r: Result<Vec<u8>, CoreError>)
    requires
        key@.len() == 32,
    ensures
        nonce@.len() != spec_nonce_len(cipher) ==> r == Err::<Vec<u8>, CoreError>(CoreError::InternalError),
        nonce@.len() == spec_nonce_len(cipher) ==> (r is Ok <==> spec_seal_accepts(
            cipher,
            pt@.len(),
            aad@.len(),
        )),
        r matches Ok(c) ==> nonce@.len() == spec_nonce_len(cipher)
            && c@ == seal_of(cipher, key@, nonce@, aad@, pt@)
            && c@.len() == pt@.len() + TAG_LEN
            && open_of(cipher, key@, nonce@, aad@, c@) == Some(pt@),
        nonce@.len() == spec_nonce_len(cipher) && r is Err ==> r == Err::<Vec<u8>, CoreError>(
            CoreError::CipherError,
        ),
{
    if nonce.len() != nonce_len(cipher) {
        return Err(CoreError::InternalError);
    }
    match cipher {
        CipherType::AesGcm => aes_gcm_seal(key, nonce, aad, pt),
        CipherType::XChaCha20Poly1305 => xchacha_seal(key, nonce, aad, pt),
    }
}

/// Open one chunk under `cipher`. A nonce of the wrong length is an internal
/// error; otherwise the result is the plaintext exactly when the tag
/// verifies, and `AuthenticationFailed` otherwise.
pub fn decrypt_chunk(cipher: CipherType, key: &[u8], nonce: &[u8], aad: &[u8], ct: &[u8]) -> (r: Result<Vec<u8>, CoreError>)
    requires
        key@.len() == 32,
    ensures
        nonce@.len() != spec_nonce_len(cipher) ==> r == Err::<Vec<u8>, CoreError>(CoreError::InternalError),
        nonce@.len() == spec_nonce_len(cipher) ==> {
            &&& r is Ok <==> open_of(cipher, key@, nonce@, aad@, ct@) is Some
            &&& (r matches Ok(p) ==> open_of(cipher, key@, nonce@, aad@, ct@) == Some(p@))
            &&& (r is Err ==> r == Err::<Vec<u8>, CoreError>(CoreError::AuthenticationFailed))
        },
{
    if nonce.len() != nonce_len(cipher) {
        return Err(CoreError::InternalError);
    }
    match cipher {
        CipherType::AesGcm => aes_gcm_open(key, nonce, aad, ct),
        CipherType::XChaCha20Poly1305 => xchacha_open(key, nonce, aad, ct),
    }
}

} // verus!
