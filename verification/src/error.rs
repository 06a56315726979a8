//! The error kinds the core surfaces. No recovery is attempted: an error
//! propagates to the top-level operation unchanged.

use vstd::prelude::*;

verus! {

/// Every failure the library can report, one variant per cause.
#[derive(Clone, Copy, Debug, PartialEq, Eq, Structural)]
pub enum CoreError {
    /// A read, write, flush, rename or remove failed.
    IoError,
    /// A memory-mode header was shorter than salt + nonce.
    MalformedContainer,
    /// The stream structure was violated (truncated chunk, or a final chunk
    /// of exactly full size).
    MalformedStream,
    /// AEAD tag verification failed: tamper, wrong key, or wrong cipher.
    AuthenticationFailed,
    /// The two password prompts disagreed.
    KeyMismatch,
    /// The password was empty.
    EmptyPassword,
    /// The keyfile was empty.
    EmptyKeyfile,
    /// The key-derivation primitive rejected its inputs.
    KdfError,
    /// The encryption primitive rejected its inputs.
    CipherError,
    /// Input and output paths are the same file in stream mode.
    SameFile,
    /// An archive entry would escape the output directory.
    PathTraversal,
    /// More chunks than the per-chunk nonce counter can count.
    StreamTooLong,
    /// An internal invariant was violated.
    InternalError,
}

impl CoreError {
    /// A single-line description, for the host to print.
    pub fn message(&self) -> (r: &'static str)
        ensures
            r@.len() > 0,
    {
        let m: &'static str = match self {
            CoreError::IoError => "i/o operation failed",
            CoreError::MalformedContainer => "file header is malformed",
            CoreError::MalformedStream => "encrypted stream is malformed",
            CoreError::AuthenticationFailed => "authentication failed",
            CoreError::KeyMismatch => "the passwords do not match",
            CoreError::EmptyPassword => "the password is empty",
            CoreError::EmptyKeyfile => "the keyfile is empty",
            CoreError::KdfError => "key derivation failed",
            CoreError::CipherError => "the cipher rejected its input",
            CoreError::SameFile => "input and output are the same file",
            CoreError::PathTraversal => "archive entry escapes the output directory",
            CoreError::StreamTooLong => "too many chunks for the nonce counter",
            CoreError::InternalError => "internal invariant violated",
        };
        proof {
            reveal_strlit("i/o operation failed");
            reveal_strlit("file header is malformed");
            reveal_strlit("encrypted stream is malformed");
            reveal_strlit("authentication failed");
            reveal_strlit("the passwords do not match");
            reveal_strlit("the password is empty");
            reveal_strlit("the keyfile is empty");
            reveal_strlit("key derivation failed");
            reveal_strlit("the cipher rejected its input");
            reveal_strlit("input and output are the same file");
            reveal_strlit("archive entry escapes the output directory");
            reveal_strlit("too many chunks for the nonce counter");
            reveal_strlit("internal invariant violated");
        }
        m
    }
}

} // verus!
