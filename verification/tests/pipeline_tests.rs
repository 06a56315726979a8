use chacha20poly1305::aead::Aead;
use chacha20poly1305::KeyInit;
use dexios::error::CoreError;
use dexios::global::CipherType;
use dexios::memory::{decrypt_bytes_memory_mode, encrypt_bytes_memory_mode, encrypt_memory_with_entropy};
use dexios::pipeline::{check_stream_paths, decrypt_bytes, encrypt_bytes, PipelineMode};
use dexios::secret::Secret;
use dexios::stream::{decrypt_bytes_stream_mode, encrypt_bytes_stream_mode};

fn secret(bytes: &[u8]) -> Secret {
    Secret::new(bytes.to_vec())
}

#[test]
fn memory_round_trip_xchacha() {
    let pt = b"a short message for the whole-file path".to_vec();
    let mut key = secret(b"hunter2");
    let (salt, nonce, body) = encrypt_bytes_memory_mode(&pt, &mut key, CipherType::XChaCha20Poly1305).unwrap();
    assert_eq!(salt.len(), 16);
    assert_eq!(nonce.len(), 24);
    assert_eq!(body.len(), pt.len() + 16);
    let mut container = salt.clone();
    container.extend_from_slice(&nonce);
    container.extend_from_slice(&body);
    let mut key2 = secret(b"hunter2");
    let back = decrypt_bytes_memory_mode(&container, &mut key2, CipherType::XChaCha20Poly1305).unwrap();
    assert_eq!(back, pt);
}

#[test]
fn memory_round_trip_aes_gcm() {
    let pt = vec![7u8; 1000];
    let mut key = secret(b"another password");
    let (salt, nonce, body) = encrypt_bytes_memory_mode(&pt, &mut key, CipherType::AesGcm).unwrap();
    assert_eq!(nonce.len(), 12);
    let mut container = salt.clone();
    container.extend_from_slice(&nonce);
    container.extend_from_slice(&body);
    let mut key2 = secret(b"another password");
    let back = decrypt_bytes_memory_mode(&container, &mut key2, CipherType::AesGcm).unwrap();
    assert_eq!(back, pt);
}

#[test]
fn memory_wrong_password_fails_authentication() {
    let pt = b"guarded".to_vec();
    let mut key = secret(b"right");
    let (salt, nonce, body) = encrypt_bytes_memory_mode(&pt, &mut key, CipherType::XChaCha20Poly1305).unwrap();
    let mut container = salt;
    container.extend_from_slice(&nonce);
    container.extend_from_slice(&body);
    let mut key2 = secret(b"wrong");
    let got = decrypt_bytes_memory_mode(&container, &mut key2, CipherType::XChaCha20Poly1305);
    assert_eq!(got.unwrap_err(), CoreError::AuthenticationFailed);
}

#[test]
fn memory_short_container_is_malformed() {
    let mut key = secret(b"pw");
    let data = vec![0u8; 30];
    let got = decrypt_bytes_memory_mode(&data, &mut key, CipherType::XChaCha20Poly1305);
    assert_eq!(got.unwrap_err(), CoreError::MalformedContainer);
}

#[test]
fn wrong_cipher_fails_authentication() {
    // encrypted with AES-GCM, decrypted as XChaCha20-Poly1305: the header
    // splits differently and the tag cannot verify
    let pt = vec![3u8; 256];
    let mut key = secret(b"pw");
    let ct = encrypt_bytes(&pt, &mut key, CipherType::AesGcm, PipelineMode::MemoryMode).unwrap();
    let mut key2 = secret(b"pw");
    let got = decrypt_bytes(&ct, &mut key2, CipherType::XChaCha20Poly1305, PipelineMode::MemoryMode);
    assert_eq!(got.unwrap_err(), CoreError::AuthenticationFailed);
}

#[test]
fn fixed_entropy_is_deterministic() {
    // with salt and nonce injected, the same inputs give byte-identical
    // output, laid out as salt, nonce, ciphertext
    let pt: Vec<u8> = (0u8..100).collect();
    let salt = [9u8; 16];
    let nonce = [5u8; 24];
    let mut k1 = secret(b"hunter2");
    let out1 = encrypt_memory_with_entropy(&pt, &mut k1, &salt, &nonce, CipherType::XChaCha20Poly1305).unwrap();
    let mut k2 = secret(b"hunter2");
    let out2 = encrypt_memory_with_entropy(&pt, &mut k2, &salt, &nonce, CipherType::XChaCha20Poly1305).unwrap();
    assert_eq!(out1, out2);
    assert_eq!(&out1[..16], &salt);
    assert_eq!(&out1[16..40], &nonce);
    assert_eq!(out1.len(), 16 + 24 + 100 + 16);
    let mut k3 = secret(b"hunter2");
    let back = decrypt_bytes_memory_mode(&out1, &mut k3, CipherType::XChaCha20Poly1305).unwrap();
    assert_eq!(back, pt);
}

#[test]
fn memory_container_matches_direct_crypto() {
    // the library's container equals one assembled from direct calls into
    // the key-derivation and cipher crates with the same inputs
    let pt: Vec<u8> = (0u8..100).collect();
    let salt = [7u8; 16];
    let nonce = [3u8; 24];
    let mut key = secret(b"hunter2");
    let out = encrypt_memory_with_entropy(&pt, &mut key, &salt, &nonce, CipherType::XChaCha20Poly1305).unwrap();

    let mut dk = [0u8; 32];
    ring::pbkdf2::derive(
        ring::pbkdf2::PBKDF2_HMAC_SHA512,
        std::num::NonZeroU32::new(122880).unwrap(),
        &salt,
        b"hunter2",
        &mut dk,
    );
    let cipher = chacha20poly1305::XChaCha20Poly1305::new_from_slice(&dk).unwrap();
    let ct = cipher
        .encrypt(&chacha20poly1305::XNonce::from(nonce), pt.as_slice())
        .unwrap();
    let mut expect = salt.to_vec();
    expect.extend_from_slice(&nonce);
    expect.extend_from_slice(&ct);
    assert_eq!(out, expect);
}

#[test]
fn fresh_entropy_differs_between_runs() {
    // same plaintext and password twice: salts, nonces and ciphertexts differ
    let pt = b"identical input".to_vec();
    let mut k1 = secret(b"pw");
    let (s1, n1, c1) = encrypt_bytes_memory_mode(&pt, &mut k1, CipherType::XChaCha20Poly1305).unwrap();
    let mut k2 = secret(b"pw");
    let (s2, n2, c2) = encrypt_bytes_memory_mode(&pt, &mut k2, CipherType::XChaCha20Poly1305).unwrap();
    assert_ne!(s1, s2);
    assert_ne!(n1, n2);
    assert_ne!(c1, c2);
}

#[test]
fn stream_round_trip_ten_mebibytes_of_zeros() {
    let pt = vec![0u8; 10 * 1048576];
    let mut key = secret(b"p");
    let ct = encrypt_bytes_stream_mode(&pt, &mut key, CipherType::XChaCha20Poly1305).unwrap();
    // ten full encrypted chunks and a final empty chunk of just a tag
    assert_eq!(ct.len(), 16 + 24 + 10 * 1048576 + 11 * 16);
    let mut key2 = secret(b"p");
    let back = decrypt_bytes_stream_mode(&ct, &mut key2, CipherType::XChaCha20Poly1305).unwrap();
    assert_eq!(back, pt);
}

#[test]
fn stream_round_trip_unaligned_length() {
    let pt: Vec<u8> = (0..(2 * 1048576 + 12345)).map(|i| (i % 251) as u8).collect();
    let mut key = secret(b"password");
    let ct = encrypt_bytes_stream_mode(&pt, &mut key, CipherType::AesGcm).unwrap();
    assert_eq!(ct.len(), 16 + 12 + pt.len() + 3 * 16);
    let mut key2 = secret(b"password");
    let back = decrypt_bytes_stream_mode(&ct, &mut key2, CipherType::AesGcm).unwrap();
    assert_eq!(back, pt);
}

#[test]
fn stream_bit_flip_fails_authentication_body() {
    // flip the byte just past the header, inside the first chunk
    let pt = vec![1u8; 1048576 + 100];
    let mut key = secret(b"pw");
    let mut ct = encrypt_bytes_stream_mode(&pt, &mut key, CipherType::XChaCha20Poly1305).unwrap();
    let off = 16 + 24 + 5;
    ct[off] ^= 0x01;
    let mut key2 = secret(b"pw");
    let got = decrypt_bytes_stream_mode(&ct, &mut key2, CipherType::XChaCha20Poly1305);
    assert_eq!(got.unwrap_err(), CoreError::AuthenticationFailed);
}

#[test]
fn stream_bit_flip_fails_authentication_header() {
    // flip a salt byte: the derived key changes, every tag fails
    let pt = vec![1u8; 1048576 + 100];
    let mut key = secret(b"pw");
    let mut ct = encrypt_bytes_stream_mode(&pt, &mut key, CipherType::XChaCha20Poly1305).unwrap();
    ct[3] ^= 0x80;
    let mut key2 = secret(b"pw");
    let got = decrypt_bytes_stream_mode(&ct, &mut key2, CipherType::XChaCha20Poly1305);
    assert_eq!(got.unwrap_err(), CoreError::AuthenticationFailed);
}

#[test]
fn stream_truncation_at_chunk_boundary_is_malformed() {
    // cut the stream so the remainder is exactly one full encrypted chunk
    let pt = vec![2u8; 2 * 1048576 + 7];
    let mut key = secret(b"pw");
    let ct = encrypt_bytes_stream_mode(&pt, &mut key, CipherType::XChaCha20Poly1305).unwrap();
    let header = 16 + 24;
    let cut = ct[..header + 2 * (1048576 + 16)].to_vec();
    let mut key2 = secret(b"pw");
    let got = decrypt_bytes_stream_mode(&cut, &mut key2, CipherType::XChaCha20Poly1305);
    assert_eq!(got.unwrap_err(), CoreError::MalformedStream);
}

#[test]
fn stream_tiny_remainder_is_malformed() {
    let pt = vec![2u8; 1048576 + 7];
    let mut key = secret(b"pw");
    let ct = encrypt_bytes_stream_mode(&pt, &mut key, CipherType::XChaCha20Poly1305).unwrap();
    let cut = ct[..ct.len() - 20].to_vec();
    let mut key2 = secret(b"pw");
    let got = decrypt_bytes_stream_mode(&cut, &mut key2, CipherType::XChaCha20Poly1305);
    assert_eq!(got.unwrap_err(), CoreError::MalformedStream);
}

#[test]
fn dispatcher_round_trip_small_input_streams_to_memory() {
    // a small plaintext asked to stream is written in the memory container
    let pt = vec![9u8; 4000];
    let mut key = secret(b"pw");
    let ct = encrypt_bytes(&pt, &mut key, CipherType::XChaCha20Poly1305, PipelineMode::StreamMode).unwrap();
    assert_eq!(ct.len(), 16 + 24 + 4000 + 16);
    let mut key2 = secret(b"pw");
    let back = decrypt_bytes(&ct, &mut key2, CipherType::XChaCha20Poly1305, PipelineMode::StreamMode).unwrap();
    assert_eq!(back, pt);
}

#[test]
fn dispatcher_round_trip_large_input_streams() {
    let pt = vec![8u8; 3 * 1048576];
    let mut key = secret(b"pw");
    let ct = encrypt_bytes(&pt, &mut key, CipherType::XChaCha20Poly1305, PipelineMode::StreamMode).unwrap();
    let mut key2 = secret(b"pw");
    let back = decrypt_bytes(&ct, &mut key2, CipherType::XChaCha20Poly1305, PipelineMode::StreamMode).unwrap();
    assert_eq!(back, pt);
}

#[test]
fn dispatcher_boundary_exactly_one_block() {
    // exactly one block still falls back to memory mode, and the container
    // size keeps the two formats apart
    let pt = vec![6u8; 1048576];
    let mut key = secret(b"pw");
    let ct = encrypt_bytes(&pt, &mut key, CipherType::XChaCha20Poly1305, PipelineMode::StreamMode).unwrap();
    assert_eq!(ct.len(), 16 + 24 + 1048576 + 16);
    let mut key2 = secret(b"pw");
    let back = decrypt_bytes(&ct, &mut key2, CipherType::XChaCha20Poly1305, PipelineMode::StreamMode).unwrap();
    assert_eq!(back, pt);
}

#[test]
fn dispatcher_boundary_one_byte_over_a_block() {
    // one byte more than a block streams: one full chunk and a tiny final one
    let pt = vec![6u8; 1048576 + 1];
    let mut key = secret(b"pw");
    let ct = encrypt_bytes(&pt, &mut key, CipherType::XChaCha20Poly1305, PipelineMode::StreamMode).unwrap();
    assert_eq!(ct.len(), 16 + 24 + 1048576 + 16 + 1 + 16);
    let mut key2 = secret(b"pw");
    let back = decrypt_bytes(&ct, &mut key2, CipherType::XChaCha20Poly1305, PipelineMode::StreamMode).unwrap();
    assert_eq!(back, pt);
}

#[test]
fn same_path_is_refused_for_stream_mode() {
    assert_eq!(check_stream_paths("a.bin", "a.bin").unwrap_err(), CoreError::SameFile);
    assert!(check_stream_paths("a.bin", "b.bin").is_ok());
}
