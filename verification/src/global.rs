//! Shared configuration: the cipher choice, the operating modes a caller can
//! select, and the fixed sizes of the container format.

use vstd::prelude::*;

verus! {

/// Bytes of salt at the front of every container.
pub const SALT_LEN: usize = 16;

/// Bytes of authentication tag appended to every AEAD ciphertext.
pub const TAG_LEN: usize = 16;

/// Plaintext bytes per chunk in stream mode. Encoder and decoder must agree.
pub const BLOCK_SIZE: usize = 1048576;

/// The two authenticated ciphers the pipeline can drive.
#[derive(Clone, Copy, Debug, PartialEq, Eq, Structural)]
pub enum CipherType {
    AesGcm,
    XChaCha20Poly1305,
}

/// Nonce length in bytes that `cipher` expects.
pub open spec fn spec_nonce_len(cipher: CipherType) -> nat {
    match cipher {
        CipherType::AesGcm => 12,
        CipherType::XChaCha20Poly1305 => 24,
    }
}

/// Nonce length in bytes that `cipher` expects.
pub fn nonce_len(cipher: CipherType) -> (r: usize)
    ensures
        r == spec_nonce_len(cipher),
{
    match cipher {
        CipherType::AesGcm => 12,
        CipherType::XChaCha20Poly1305 => 24,
    }
}

/// Length of a container header: salt followed by nonce.
pub open spec fn spec_header_len(cipher: CipherType) -> nat {
    (SALT_LEN + spec_nonce_len(cipher)) as nat
}

/// Whether encrypted output is persisted or discarded after timing.
#[derive(Clone, Copy, Debug, PartialEq, Eq, Structural)]
pub enum BenchMode {
    WriteToFilesystem,
    BenchmarkInMemory,
}

/// Whether a content hash of the encrypted artifact is reported.
#[derive(Clone, Copy, Debug, PartialEq, Eq, Structural)]
pub enum HashMode {
    CalculateHash,
    NoHash,
}

/// Whether the plaintext input is securely erased after encryption, and with
/// how many passes.
#[derive(Clone, Copy, Debug, PartialEq, Eq, Structural)]
pub enum EraseMode {
    IgnoreFile,
    Passes(u32),
}

/// Whether the user is asked before an existing output file is overwritten.
#[derive(Clone, Copy, Debug, PartialEq, Eq, Structural)]
pub enum SkipMode {
    PromptUser,
    HidePrompts,
}

/// Where the raw key comes from.
#[derive(Clone, Copy, Debug, PartialEq, Eq, Structural)]
pub enum PasswordMode {
    UseKeyfile,
    AskPassword,
}

/// Whether a directory is packed with its subdirectories.
#[derive(Clone, Copy, Debug, PartialEq, Eq, Structural)]
pub enum DirectoryMode {
    Singular,
    Recursive,
}

/// The options a caller passes to an encrypt or decrypt operation.
#[derive(Clone, Copy, Debug)]
pub struct Parameters {
    pub cipher_type: CipherType,
    pub bench: BenchMode,
    pub hash_mode: HashMode,
    pub erase: EraseMode,
    pub skip: SkipMode,
    pub password: PasswordMode,
}

/// Whether an output file about to be created may be written without asking:
/// an existing file needs confirmation only when prompts are enabled and the
/// output is really persisted.
pub fn needs_overwrite_prompt(exists: bool, skip: SkipMode, bench: BenchMode) -> (r: bool)
    ensures
        r == (exists && skip == SkipMode::PromptUser && bench == BenchMode::WriteToFilesystem),
{
    exists && skip == SkipMode::PromptUser && bench == BenchMode::WriteToFilesystem
}

} // verus!
