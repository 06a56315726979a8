//! The top-level byte pipelines: the caller picks memory or stream mode, and
//! a small plaintext asked to stream is transparently sent to memory mode,
//! the policy the decryptor mirrors by the container's size. Both formats
//! are disjoint in length for a given policy, so the round trip through
//! either door recovers the plaintext.

use vstd::prelude::*;
use crate::cipher::spec_seal_accepts;
use crate::error::CoreError;
use crate::global::{CipherType, BLOCK_SIZE, SALT_LEN, TAG_LEN, spec_header_len};
use crate::memory::{
    spec_encrypt_memory, spec_decrypt_memory, decrypt_bytes_memory_mode, encrypt_bytes_memory_mode,
};
use crate::secret::Secret;
use crate::stream::{
    spec_encrypt_stream, spec_decrypt_stream, spec_stream_body_len, spec_stream_structure_ok,
    spec_stream_too_long, decrypt_bytes_stream_mode, encrypt_bytes_stream_mode,
};
use crate::util::bytes_eq;

verus! {

/// The two I/O strategies, with distinct on-disk layouts.
#[derive(Clone, Copy, Debug, PartialEq, Eq, Structural)]
pub enum PipelineMode {
    MemoryMode,
    StreamMode,
}

/// The mode an encryption really runs in: streaming a plaintext of at most
/// one block falls back to memory mode.
pub open spec fn spec_encrypt_dispatch(mode: PipelineMode, pt_len: nat) -> PipelineMode {
    if mode == PipelineMode::StreamMode && pt_len <= BLOCK_SIZE {
        PipelineMode::MemoryMode
    } else {
        mode
    }
}

/// The mode a decryption really runs in: a container no longer than a
/// memory-mode container of one block falls back to memory mode. This is the
/// exact mirror of the encrypt-side policy, because a streamed container
/// always holds more than one full encrypted chunk.
pub open spec fn spec_decrypt_dispatch(mode: PipelineMode, data_len: nat, cipher: CipherType) -> PipelineMode {
    if mode == PipelineMode::StreamMode && data_len <= spec_header_len(cipher) + BLOCK_SIZE
        + TAG_LEN {
        PipelineMode::MemoryMode
    } else {
        mode
    }
}

/// What decryption recovers from container bytes under the caller's mode,
/// after the size-based fallback.
pub open spec fn spec_decrypt_bytes(data: Seq<u8>, raw: Seq<u8>, cipher: CipherType, mode: PipelineMode) -> Option<Seq<u8>> {
    match spec_decrypt_dispatch(mode, data.len(), cipher) {
        PipelineMode::MemoryMode => spec_decrypt_memory(data, raw, cipher),
        PipelineMode::StreamMode => spec_decrypt_stream(data, raw, cipher),
    }
}

/// Encrypt a buffer under the caller's cipher and mode, with fresh salt and
/// nonce. Succeeds exactly when the dispatched pipeline accepts the
/// plaintext's size; the result is then the dispatched mode's complete
/// container — memory layout and length for a memory dispatch, chunked
/// layout and length for a stream dispatch — and its decryption under the
/// same raw key, cipher and mode gives the plaintext back. The raw key is
/// zeroized either way.
pub fn encrypt_bytes(pt: &[u8], raw_key: &mut Secret, cipher: CipherType, mode: PipelineMode) -> (r: Result<Vec<u8>, CoreError>)
    ensures
        final(raw_key).is_zeroized(),
        spec_encrypt_dispatch(mode, pt@.len()) == PipelineMode::MemoryMode ==> (r is Ok
            <==> spec_seal_accepts(cipher, pt@.len(), 0)),
        spec_encrypt_dispatch(mode, pt@.len()) == PipelineMode::StreamMode ==> (r is Ok
            <==> !spec_stream_too_long(pt@.len())),
        r matches Ok(out) ==> if spec_encrypt_dispatch(mode, pt@.len())
            == PipelineMode::MemoryMode {
            out@ == spec_encrypt_memory(
                pt@,
                old(raw_key)@,
                out@.subrange(0, SALT_LEN as int),
                out@.subrange(SALT_LEN as int, spec_header_len(cipher) as int),
                cipher,
            ) && out@.len() == spec_header_len(cipher) + pt@.len() + TAG_LEN
        } else {
            out@ == spec_encrypt_stream(
                pt@,
                old(raw_key)@,
                out@.subrange(0, SALT_LEN as int),
                out@.subrange(SALT_LEN as int, spec_header_len(cipher) as int),
                cipher,
            ) && out@.len() == spec_header_len(cipher) + spec_stream_body_len(pt@.len())
        },
        r matches Ok(out) ==> spec_decrypt_bytes(out@, old(raw_key)@, cipher, mode) == Some(pt@),
        r matches Err(e) ==> e == CoreError::CipherError || e == CoreError::StreamTooLong,
{
    let use_memory = match mode {
        PipelineMode::MemoryMode => true,
        PipelineMode::StreamMode => pt.len() <= BLOCK_SIZE,
    };
    if use_memory {
        let sealed = encrypt_bytes_memory_mode(pt, raw_key, cipher);
        match sealed {
            Ok((salt, nonce, body)) => {
                let out = crate::codec::encode_container(
                    salt.as_slice(),
                    nonce.as_slice(),
                    body.as_slice(),
                );
                proof {
                    assert(out@ =~= crate::codec::spec_container_bytes(salt@, nonce@, body@));
                    assert(out@.subrange(0, SALT_LEN as int) =~= salt@);
                    assert(out@.subrange(SALT_LEN as int, spec_header_len(cipher) as int)
                        =~= nonce@);
                }
                Ok(out)
            },
            Err(e) => Err(e),
        }
    } else {
        let sealed = encrypt_bytes_stream_mode(pt, raw_key, cipher);
        match sealed {
            Ok(out) => {
                proof {
                    vstd::arithmetic::div_mod::lemma_fundamental_div_mod(
                        pt@.len() as int,
                        BLOCK_SIZE as int,
                    );
                    assert(pt@.len() / (BLOCK_SIZE as nat) >= 1) by (nonlinear_arith)
                        requires
                            pt@.len() > BLOCK_SIZE,
                            BLOCK_SIZE > 0,
                    ;
                    assert(out@.len() > spec_header_len(cipher) + BLOCK_SIZE + TAG_LEN)
                        by (nonlinear_arith)
                        requires
                            out@.len() == spec_header_len(cipher)
                                + crate::stream::spec_stream_body_len(pt@.len()),
                            crate::stream::spec_stream_body_len(pt@.len()) == (pt@.len() / (
                            BLOCK_SIZE as nat)) * ((BLOCK_SIZE + TAG_LEN) as nat) + (pt@.len() % (
                            BLOCK_SIZE as nat)) + (TAG_LEN as nat),
                            pt@.len() / (BLOCK_SIZE as nat) >= 1,
                    ;
                }
                Ok(out)
            },
            Err(e) => Err(e),
        }
    }
}

/// Decrypt a container under the caller's cipher and mode, with the
/// size-based fallback mirrored from encryption. The plaintext comes back
/// exactly when the container decrypts under the dispatched pipeline; errors
/// are the pipeline's own. The raw key is zeroized either way.
pub fn decrypt_bytes(data: &[u8], raw_key: &mut Secret, cipher: CipherType, mode: PipelineMode) -> (r: Result<Vec<u8>, CoreError>)
    ensures
        final(raw_key).is_zeroized(),
        r is Ok <==> spec_decrypt_bytes(data@, old(raw_key)@, cipher, mode) is Some,
        r matches Ok(p) ==> spec_decrypt_bytes(data@, old(raw_key)@, cipher, mode) == Some(p@),
        r matches Err(e) ==> if data@.len() < spec_header_len(cipher) {
            e == CoreError::MalformedContainer
        } else if spec_decrypt_dispatch(mode, data@.len(), cipher) == PipelineMode::MemoryMode {
            e == CoreError::AuthenticationFailed
        } else if spec_stream_structure_ok((data@.len() - spec_header_len(cipher)) as nat) {
            e == CoreError::AuthenticationFailed
        } else {
            e == CoreError::MalformedStream || e == CoreError::AuthenticationFailed
        },
{
    let use_memory = match mode {
        PipelineMode::MemoryMode => true,
        PipelineMode::StreamMode => {
            data.len() <= crate::global::SALT_LEN + crate::global::nonce_len(cipher) + BLOCK_SIZE
                + TAG_LEN
        },
    };
    if use_memory {
        decrypt_bytes_memory_mode(data, raw_key, cipher)
    } else {
        decrypt_bytes_stream_mode(data, raw_key, cipher)
    }
}

/// Stream mode refuses to read and write the same file: the guard the host
/// must pass before opening anything. Two paths are the same here when their
/// bytes are, which is how the file system sees them.
pub fn check_stream_paths(input: &str, output: &str) -> (r: Result<(), CoreError>)
    ensures
        r is Ok <==> input@ != output@,
        r matches Err(e) ==> e == CoreError::SameFile,
{
    if bytes_eq(input.as_bytes(), output.as_bytes()) {
        proof {
            vstd::utf8::encode_utf8_decode_utf8(input@);
            vstd::utf8::encode_utf8_decode_utf8(output@);
        }
        Err(CoreError::SameFile)
    } else {
        Ok(())
    }
}

} // verus!
