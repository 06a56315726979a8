//! Secure-erase planning: `n` passes of random bytes over the file's whole
//! length, then one pass of zeros, then truncate and unlink. The host
//! executes the plan against the file system; the plan and the bytes of each
//! pass are built here.

use vstd::prelude::*;
use crate::rng::random_bytes;

verus! {

/// What one overwrite pass writes over the file's full length.
#[derive(Clone, Copy, Debug, PartialEq, Eq, Structural)]
pub enum PassKind {
    /// Cryptographically random bytes.
    RandomPass,
    /// Zero bytes.
    ZeroPass,
}

/// The overwrite schedule for `passes` requested passes: that many random
/// passes, always followed by one final zero pass.
pub fn erase_schedule(passes: u32) -> (r: Vec<PassKind>)
    ensures
        r@.len() == passes + 1,
        forall|j: int| 0 <= j < passes ==> r@[j] == PassKind::RandomPass,
        r@[passes as int] == PassKind::ZeroPass,
{
    let mut plan: Vec<PassKind> = Vec::new();
    let mut k: u32 = 0;
    while k < passes
        invariant
            k <= passes,
            plan@.len() == k,
            forall|j: int| 0 <= j < k ==> plan@[j] == PassKind::RandomPass,
        decreases passes - k,
    {
        plan.push(PassKind::RandomPass);
        k = k + 1;
    }
    plan.push(PassKind::ZeroPass);
    plan
}

/// A buffer of `len` zero bytes.
pub fn zero_buffer(len: usize) -> (r: Vec<u8>)
    ensures
        r@.len() == len,
        forall|j: int| 0 <= j < len ==> r@[j] == 0,
{
    let mut buf: Vec<u8> = Vec::new();
    let mut k: usize = 0;
    while k < len
        invariant
            k <= len,
            buf@.len() == k,
            forall|j: int| 0 <= j < k ==> buf@[j] == 0,
        decreases len - k,
    {
        buf.push(0u8);
        k = k + 1;
    }
    buf
}

/// The bytes one pass writes: the file's full length of random data or of
/// zeros, as the schedule says.
pub fn pass_buffer(kind: PassKind, len: usize) -> (r: Vec<u8>)
    ensures
        r@.len() == len,
        kind == PassKind::ZeroPass ==> forall|j: int| 0 <= j < len ==> r@[j] == 0,
{
    match kind {
        PassKind::RandomPass => random_bytes(len),
        PassKind::ZeroPass => zero_buffer(len),
    }
}

} // verus!
