//! Content hashing of an encrypted artifact: a BLAKE3 digest over
//! `salt ‖ nonce ‖ body`, reported to the user in base64.

use vstd::prelude::*;
use base64::Engine;
use crate::util::append_bytes;

verus! {

/// The 32-byte BLAKE3 digest of a byte sequence; a function of the bytes
/// alone. The outside function is named, not restated.
pub uninterp spec fn blake3_of(data: Seq<u8>) -> Seq<u8>;

/// The standard base64 rendering, with padding, of a byte sequence; a
/// function of the bytes alone.
pub uninterp spec fn base64_of(data: Seq<u8>) -> Seq<char>;

/// Relies on blake3::hash: a 32-byte digest that depends on the input bytes
/// alone.
#[verifier::external_body]
fn blake3_hash(data: &[u8]) -> (r: Vec<u8>)
    ensures
        r@ == blake3_of(data@),
        r@.len() == 32,
{
    blake3::hash(data).as_bytes().to_vec()
}

/// Relies on base64's standard engine (Engine::encode with padding): four
/// output characters for every three input bytes, rounded up, depending on
/// the input bytes alone.
#[verifier::external_body]
fn base64_encode(data: &[u8]) -> (r: String)
    ensures
        r@ == base64_of(data@),
        r@.len() == 4 * ((data@.len() + 2) / 3),
{
    base64::engine::general_purpose::STANDARD.encode(data)
}

/// The reported hash of an encrypted artifact: base64 of the BLAKE3 digest
/// over the salt, the nonce and the body, in container order.
pub fn hash_data_blake3(salt: &[u8], nonce: &[u8], data: &[u8]) -> (r: String)
    ensures
        r@ == base64_of(blake3_of(salt@ + nonce@ + data@)),
        r@.len() == 44,
{
    let mut whole: Vec<u8> = Vec::new();
    append_bytes(&mut whole, salt);
    append_bytes(&mut whole, nonce);
    append_bytes(&mut whole, data);
    proof {
        assert(whole@ =~= salt@ + nonce@ + data@);
    }
    let digest = blake3_hash(whole.as_slice());
    base64_encode(digest.as_slice())
}

} // verus!
