//! Randomness for salts, nonces and erase passes. Nothing is assumed of the
//! values drawn: every caller is verified for every outcome.

use vstd::prelude::*;
use rand::RngCore;

verus! {

/// Relies on rand::rngs::ThreadRng through RngCore::fill_bytes: it fills the
/// buffer with bytes from a cryptographically strong source. Only the length
/// is promised; the values may differ between any two calls.
#[verifier::external_body]
pub(crate) fn random_bytes(len: usize) -> (r: Vec<u8>)
    ensures
        r@.len() == len,
{
    let mut buf = vec![0u8; len];
    rand::thread_rng().fill_bytes(&mut buf);
    buf
}

} // verus!
