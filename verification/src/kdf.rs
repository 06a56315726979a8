//! Key derivation: a 32-byte key from (raw secret, salt), computed by a
//! password-hashing function with a cost parameter compiled into the library
//! so that every version derives the same key from the same inputs.

use vstd::prelude::*;
use crate::secret::Secret;

verus! {

/// The 32 bytes that the key-derivation function produces from a raw secret
/// and a salt. The function of the outside crate is named, not restated: the
/// same inputs give the same bytes, on every machine.
pub uninterp spec fn derived_key_of(raw: Seq<u8>, salt: Seq<u8>) -> Seq<u8>;

/// Relies on ring::pbkdf2::derive with PBKDF2-HMAC-SHA512 and a fixed
/// iteration count: it fills the output buffer with bytes that are a function
/// of the secret and the salt alone.
#[verifier::external_body]
fn pbkdf2_derive(raw: &[u8], salt: &[u8]) -> (r: Vec<u8>)
    ensures
        r@ == derived_key_of(raw@, salt@),
        r@.len() == 32,
{
    let mut out = [0u8; 32];
    ring::pbkdf2::derive(
        ring::pbkdf2::PBKDF2_HMAC_SHA512,
        std::num::NonZeroU32::new(122880).unwrap(),
        salt,
        raw,
        &mut out,
    );
    out.to_vec()
}

/// Derive the 32-byte encryption key for this (secret, salt) pair.
pub fn derive_key(raw: &Secret, salt: &[u8]) -> (r: Secret)
    ensures
        r@ == derived_key_of(raw@, salt@),
        r@.len() == 32,
{
    Secret::new(pbkdf2_derive(raw.expose().as_slice(), salt))
}

/// The derivation is deterministic: equal raw keys and equal salts give
/// bitwise-identical derived keys.
pub proof fn lemma_kdf_deterministic(raw1: Seq<u8>, salt1: Seq<u8>, raw2: Seq<u8>, salt2: Seq<u8>)
    requires
        raw1 == raw2,
        salt1 == salt2,
    ensures
        derived_key_of(raw1, salt1) == derived_key_of(raw2, salt2),
{
}

} // verus!
