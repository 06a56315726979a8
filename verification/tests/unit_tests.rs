use base64::Engine;
use dexios::codec::{encode_container, parse_container};
use dexios::erase::{erase_schedule, pass_buffer, PassKind};
use dexios::error::CoreError;
use dexios::global::{needs_overwrite_prompt, nonce_len, BenchMode, CipherType, SkipMode};
use dexios::hash::hash_data_blake3;
use dexios::kdf::derive_key;
use dexios::key::{key_from_keyfile, key_from_password, key_from_password_pair};
use dexios::secret::Secret;
use dexios::stream::chunk_nonce;

#[test]
fn kdf_is_deterministic() {
    let raw = Secret::new(b"a raw key".to_vec());
    let salt = [4u8; 16];
    let k1 = derive_key(&raw, &salt);
    let k2 = derive_key(&raw, &salt);
    assert_eq!(k1.expose(), k2.expose());
    assert_eq!(k1.expose().len(), 32);
}

#[test]
fn kdf_depends_on_salt() {
    let raw = Secret::new(b"a raw key".to_vec());
    let k1 = derive_key(&raw, &[4u8; 16]);
    let k2 = derive_key(&raw, &[5u8; 16]);
    assert_ne!(k1.expose(), k2.expose());
}

#[test]
fn secret_zeroize_clears_every_byte() {
    let mut s = Secret::new(vec![0xAB; 64]);
    s.zeroize();
    assert_eq!(s.expose().as_slice(), &[0u8; 64]);
    assert_eq!(s.len(), 64);
}

#[test]
fn container_codec_round_trip() {
    let salt = [1u8; 16];
    let nonce = [2u8; 24];
    let body = b"payload".to_vec();
    let whole = encode_container(&salt, &nonce, &body);
    let c = parse_container(&whole, CipherType::XChaCha20Poly1305).unwrap();
    assert_eq!(c.salt, salt.to_vec());
    assert_eq!(c.nonce, nonce.to_vec());
    assert_eq!(c.body, body);
}

#[test]
fn container_too_short_is_malformed() {
    let data = vec![0u8; 39];
    let got = parse_container(&data, CipherType::XChaCha20Poly1305);
    assert_eq!(got.unwrap_err(), CoreError::MalformedContainer);
    // the same bytes are long enough for the shorter AES-GCM header
    assert!(parse_container(&data, CipherType::AesGcm).is_ok());
}

#[test]
fn chunk_nonce_advances_big_endian_counter() {
    let base = [0u8, 0, 0, 0, 0, 0, 0, 0, 0, 0, 1, 255];
    let n1 = chunk_nonce(&base, 1);
    assert_eq!(&n1[..8], &base[..8]);
    assert_eq!(&n1[8..], &[0u8, 0, 2, 0]);
    let n0 = chunk_nonce(&base, 0);
    assert_eq!(n0.to_vec(), base.to_vec());
}

#[test]
fn chunk_nonce_wraps_modulo_thirty_two_bits() {
    let base = [9u8, 9, 9, 9, 9, 9, 9, 9, 255, 255, 255, 255];
    let n = chunk_nonce(&base, 1);
    assert_eq!(&n[..8], &base[..8]);
    assert_eq!(&n[8..], &[0u8, 0, 0, 0]);
}

#[test]
fn erase_schedule_is_random_passes_then_zeros() {
    let plan = erase_schedule(3);
    assert_eq!(plan.len(), 4);
    assert_eq!(plan[0], PassKind::RandomPass);
    assert_eq!(plan[1], PassKind::RandomPass);
    assert_eq!(plan[2], PassKind::RandomPass);
    assert_eq!(plan[3], PassKind::ZeroPass);
}

#[test]
fn erase_default_sixteen_passes() {
    let plan = erase_schedule(16);
    assert_eq!(plan.len(), 17);
    assert!(plan[..16].iter().all(|p| *p == PassKind::RandomPass));
    assert_eq!(plan[16], PassKind::ZeroPass);
}

#[test]
fn pass_buffers_have_the_right_shape() {
    let z = pass_buffer(PassKind::ZeroPass, 4096);
    assert_eq!(z.len(), 4096);
    assert!(z.iter().all(|b| *b == 0));
    let r = pass_buffer(PassKind::RandomPass, 4096);
    assert_eq!(r.len(), 4096);
    // 4096 random bytes are not all zero, except with negligible probability
    assert!(r.iter().any(|b| *b != 0));
}

#[test]
fn empty_password_is_rejected() {
    assert_eq!(key_from_password(Vec::new()).err().unwrap(), CoreError::EmptyPassword);
    assert_eq!(
        key_from_password_pair(Vec::new(), b"").err().unwrap(),
        CoreError::EmptyPassword
    );
}

#[test]
fn password_mismatch_is_rejected() {
    let got = key_from_password_pair(b"hunter2".to_vec(), b"hunter3");
    assert_eq!(got.err().unwrap(), CoreError::KeyMismatch);
}

#[test]
fn matching_passwords_are_accepted() {
    let got = key_from_password_pair(b"hunter2".to_vec(), b"hunter2");
    assert!(got.is_ok());
    assert_eq!(got.ok().unwrap().expose().as_slice(), b"hunter2");
}

#[test]
fn empty_keyfile_is_rejected() {
    assert_eq!(key_from_keyfile(Vec::new()).err().unwrap(), CoreError::EmptyKeyfile);
    assert!(key_from_keyfile(vec![1, 2, 3]).is_ok());
}

#[test]
fn hash_matches_direct_computation() {
    let salt = [1u8; 16];
    let nonce = [2u8; 24];
    let body = b"bytes under test".to_vec();
    let got = hash_data_blake3(&salt, &nonce, &body);
    let mut whole = salt.to_vec();
    whole.extend_from_slice(&nonce);
    whole.extend_from_slice(&body);
    let expect = base64::engine::general_purpose::STANDARD
        .encode(blake3::hash(&whole).as_bytes());
    assert_eq!(got, expect);
    assert_eq!(got.len(), 44);
}

#[test]
fn hash_differs_on_different_input() {
    let a = hash_data_blake3(&[1; 16], &[2; 24], b"one");
    let b = hash_data_blake3(&[1; 16], &[2; 24], b"two");
    assert_ne!(a, b);
}

#[test]
fn overwrite_prompt_rules() {
    assert!(needs_overwrite_prompt(true, SkipMode::PromptUser, BenchMode::WriteToFilesystem));
    assert!(!needs_overwrite_prompt(false, SkipMode::PromptUser, BenchMode::WriteToFilesystem));
    assert!(!needs_overwrite_prompt(true, SkipMode::HidePrompts, BenchMode::WriteToFilesystem));
    assert!(!needs_overwrite_prompt(true, SkipMode::PromptUser, BenchMode::BenchmarkInMemory));
}

#[test]
fn nonce_lengths_by_cipher() {
    assert_eq!(nonce_len(CipherType::AesGcm), 12);
    assert_eq!(nonce_len(CipherType::XChaCha20Poly1305), 24);
}

#[test]
fn error_messages_are_single_lines() {
    let kinds = [
        CoreError::IoError,
        CoreError::MalformedContainer,
        CoreError::MalformedStream,
        CoreError::AuthenticationFailed,
        CoreError::KeyMismatch,
        CoreError::EmptyPassword,
        CoreError::EmptyKeyfile,
        CoreError::KdfError,
        CoreError::CipherError,
        CoreError::SameFile,
        CoreError::PathTraversal,
        CoreError::StreamTooLong,
        CoreError::InternalError,
    ];
    for k in kinds {
        let m = k.message();
        assert!(!m.is_empty());
        assert!(!m.contains('\n'));
    }
}
