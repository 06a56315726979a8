//! The memory-mode pipeline: the whole plaintext is encrypted in a single
//! AEAD call with no associated data, and the output is the container
//! `salt ‖ nonce ‖ ciphertext-with-tag`. Decryption is the mirror image.
//!
//! The raw key is zeroized before either operation returns, on success and
//! on failure alike.

use vstd::prelude::*;
use crate::cipher::{open_of, seal_of, spec_seal_accepts, encrypt_chunk, decrypt_chunk};
use crate::codec::{spec_container_bytes, encode_container, parse_container};
use crate::error::CoreError;
use crate::global::{CipherType, SALT_LEN, TAG_LEN, spec_nonce_len, spec_header_len, nonce_len};
use crate::kdf::{derived_key_of, derive_key};
use crate::rng::random_bytes;
use crate::secret::Secret;

verus! {

/// The container that memory mode writes for a given plaintext, raw key,
/// salt and nonce.
pub open spec fn spec_encrypt_memory(pt: Seq<u8>, raw: Seq<u8>, salt: Seq<u8>, nonce: Seq<u8>, cipher: CipherType) -> Seq<u8> {
    spec_container_bytes(salt, nonce, seal_of(cipher, derived_key_of(raw, salt), nonce, Seq::<u8>::empty(), pt))
}

/// What memory-mode decryption recovers from container bytes and a raw key:
/// the plaintext when the header splits and the tag verifies, nothing
/// otherwise.
pub open spec fn spec_decrypt_memory(data: Seq<u8>, raw: Seq<u8>, cipher: CipherType) -> Option<Seq<u8>> {
    if data.len() < spec_header_len(cipher) {
        None
    } else {
        let salt = data.subrange(0, SALT_LEN as int);
        let nonce = data.subrange(SALT_LEN as int, spec_header_len(cipher) as int);
        let body = data.subrange(spec_header_len(cipher) as int, data.len() as int);
        open_of(cipher, derived_key_of(raw, salt), nonce, Seq::<u8>::empty(), body)
    }
}

/// Encrypt a whole buffer in memory mode with the salt and nonce given by the
/// caller. Deterministic, so a fixed salt and nonce give reproducible output;
/// the random-entropy entry point below is the ordinary door.
///
/// Encryption succeeds exactly when the cipher accepts the plaintext's
/// size; the result is then exactly the container for these inputs, and
/// decrypting it in memory mode with the same raw key and cipher gives the
/// plaintext back. The raw key is zeroized either way.
pub fn encrypt_memory_with_entropy(pt: &[u8], raw_key: &mut Secret, salt: &[u8], nonce: &[u8], cipher: CipherType) -> (r: Result<Vec<u8>, CoreError>)
    requires
        salt@.len() == SALT_LEN,
        nonce@.len() == spec_nonce_len(cipher),
    ensures
        final(raw_key).is_zeroized(),
        r is Ok <==> spec_seal_accepts(cipher, pt@.len(), 0),
        r matches Ok(out) ==> out@ == spec_encrypt_memory(pt@, old(raw_key)@, salt@, nonce@, cipher),
        r matches Ok(out) ==> spec_decrypt_memory(out@, old(raw_key)@, cipher) == Some(pt@),
        r matches Ok(out) ==> out@.len() == spec_header_len(cipher) + pt@.len() + TAG_LEN,
        r matches Err(e) ==> e == CoreError::CipherError,
{
    let mut dk = derive_key(raw_key, salt);
    let aad: Vec<u8> = Vec::new();
    let sealed = encrypt_chunk(cipher, dk.expose().as_slice(), nonce, aad.as_slice(), pt);
    dk.zeroize();
    raw_key.zeroize();
    match sealed {
        Ok(body) => {
            let out = encode_container(salt, nonce, body.as_slice());
            proof {
                let whole = out@;
                assert(whole.subrange(0, SALT_LEN as int) =~= salt@);
                assert(whole.subrange(SALT_LEN as int, spec_header_len(cipher) as int) =~= nonce@);
                assert(whole.subrange(spec_header_len(cipher) as int, whole.len() as int) =~= body@);
            }
            Ok(out)
        },
        Err(e) => Err(e),
    }
}

/// Encrypt a whole buffer in memory mode: draw a fresh 16-byte salt and a
/// fresh nonce of the cipher's length, derive the key, seal, and return
/// `(salt, nonce, ciphertext-with-tag)` for the caller to write as
/// `salt ‖ nonce ‖ ciphertext`. Succeeds exactly when the cipher accepts the
/// plaintext's size. The raw key is zeroized either way.
pub fn encrypt_bytes_memory_mode(pt: &[u8], raw_key: &mut Secret, cipher: CipherType) -> (r: Result<(Vec<u8>, Vec<u8>, Vec<u8>), CoreError>)
    ensures
        final(raw_key).is_zeroized(),
        r is Ok <==> spec_seal_accepts(cipher, pt@.len(), 0),
        r matches Ok(t) ==> t.0@.len() == SALT_LEN && t.1@.len() == spec_nonce_len(cipher),
        r matches Ok(t) ==> t.2@ == seal_of(cipher, derived_key_of(old(raw_key)@, t.0@), t.1@, Seq::<u8>::empty(), pt@),
        r matches Ok(t) ==> spec_decrypt_memory(spec_container_bytes(t.0@, t.1@, t.2@), old(raw_key)@, cipher) == Some(pt@),
        r matches Ok(t) ==> t.2@.len() == pt@.len() + TAG_LEN,
        r matches Err(e) ==> e == CoreError::CipherError,
{
    let salt = random_bytes(SALT_LEN);
    let nonce = random_bytes(nonce_len(cipher));
    let out = encrypt_memory_with_entropy(pt, raw_key, salt.as_slice(), nonce.as_slice(), cipher);
    match out {
        Ok(whole) => {
            let header = SALT_LEN + nonce_len(cipher);
            let body = crate::util::copy_range(whole.as_slice(), header, whole.len());
            proof {
                assert(spec_container_bytes(salt@, nonce@, body@) =~= whole@);
            }
            Ok((salt, nonce, body))
        },
        Err(e) => Err(e),
    }
}

/// Decrypt a memory-mode container. The header is split off; data shorter
/// than the header is `MalformedContainer`. The key is derived from the salt,
/// and the body is opened in a single AEAD call: the plaintext comes back
/// exactly when the tag verifies, and any other failure is
/// `AuthenticationFailed`. The raw key is zeroized either way.
pub fn decrypt_bytes_memory_mode(data: &[u8], raw_key: &mut Secret, cipher: CipherType) -> (r: Result<Vec<u8>, CoreError>)
    ensures
        final(raw_key).is_zeroized(),
        r is Ok <==> spec_decrypt_memory(data@, old(raw_key)@, cipher) is Some,
        r matches Ok(p) ==> spec_decrypt_memory(data@, old(raw_key)@, cipher) == Some(p@),
        r matches Err(e) ==> if data@.len() < spec_header_len(cipher) {
            e == CoreError::MalformedContainer
        } else {
            e == CoreError::AuthenticationFailed
        },
{
    let parsed = parse_container(data, cipher);
    match parsed {
        Ok(c) => {
            let mut dk = derive_key(raw_key, c.salt.as_slice());
            let aad: Vec<u8> = Vec::new();
            let opened = decrypt_chunk(cipher, dk.expose().as_slice(), c.nonce.as_slice(), aad.as_slice(), c.body.as_slice());
            dk.zeroize();
            raw_key.zeroize();
            opened
        },
        Err(e) => {
            raw_key.zeroize();
            Err(e)
        },
    }
}

} // verus!
