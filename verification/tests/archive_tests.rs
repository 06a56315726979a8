use dexios::archive::{
    build_exclusion_set, check_entry_safety, classify_entry, is_safe_entry_name, pack_entries,
    unpack_entries, validate_compression_level, DirEntry, EntryAction,
};
use dexios::error::CoreError;
use dexios::global::{CipherType, DirectoryMode};
use dexios::pipeline::{decrypt_bytes, encrypt_bytes, PipelineMode};
use dexios::secret::Secret;

#[test]
fn archive_round_trip() {
    let dirs = vec![b"tree".to_vec(), b"tree/sub".to_vec()];
    let files = vec![
        (b"tree/a.txt".to_vec(), b"alpha".to_vec()),
        (b"tree/sub/b.bin".to_vec(), vec![0u8, 1, 2, 3, 255]),
    ];
    let bytes = pack_entries(&dirs, &files, 6).unwrap();
    let entries = unpack_entries(bytes).unwrap();
    assert_eq!(entries.len(), 4);
    assert_eq!(entries[0].0, b"tree/".to_vec());
    assert_eq!(entries[0].1, None);
    assert_eq!(entries[1].0, b"tree/sub/".to_vec());
    assert_eq!(entries[1].1, None);
    assert_eq!(entries[2].0, b"tree/a.txt".to_vec());
    assert_eq!(entries[2].1.as_deref(), Some(b"alpha".as_slice()));
    assert_eq!(entries[3].0, b"tree/sub/b.bin".to_vec());
    assert_eq!(entries[3].1.as_deref(), Some([0u8, 1, 2, 3, 255].as_slice()));
}

#[test]
fn packed_archive_survives_encryption() {
    // pack, encrypt, decrypt, unpack: the files round-trip byte-exact
    let dirs = vec![b"d".to_vec()];
    let files = vec![(b"d/data.bin".to_vec(), (0u8..200).collect::<Vec<u8>>())];
    let bytes = pack_entries(&dirs, &files, 1).unwrap();
    let mut key = Secret::new(b"pw".to_vec());
    let ct = encrypt_bytes(&bytes, &mut key, CipherType::XChaCha20Poly1305, PipelineMode::StreamMode).unwrap();
    let mut key2 = Secret::new(b"pw".to_vec());
    let back = decrypt_bytes(&ct, &mut key2, CipherType::XChaCha20Poly1305, PipelineMode::StreamMode).unwrap();
    let entries = unpack_entries(back).unwrap();
    assert_eq!(entries[1].0, b"d/data.bin".to_vec());
    assert_eq!(entries[1].1.as_deref(), Some((0u8..200).collect::<Vec<u8>>().as_slice()));
}

#[test]
fn symlinks_and_excluded_files_are_skipped() {
    let set = build_exclusion_set(&vec!["*.tmp".to_string()]).unwrap();
    let link = DirEntry {
        path: "dir/link".to_string(),
        file_name: "link".to_string(),
        is_dir: false,
        is_symlink: true,
    };
    assert_eq!(classify_entry(&link, DirectoryMode::Recursive, &set), EntryAction::Skip);
    let tmp = DirEntry {
        path: "dir/scratch.tmp".to_string(),
        file_name: "scratch.tmp".to_string(),
        is_dir: false,
        is_symlink: false,
    };
    assert_eq!(classify_entry(&tmp, DirectoryMode::Recursive, &set), EntryAction::Skip);
    let keep = DirEntry {
        path: "dir/keep.txt".to_string(),
        file_name: "keep.txt".to_string(),
        is_dir: false,
        is_symlink: false,
    };
    assert_eq!(classify_entry(&keep, DirectoryMode::Recursive, &set), EntryAction::TakeFile);
}

#[test]
fn directories_descend_only_when_recursive() {
    let set = build_exclusion_set(&Vec::new()).unwrap();
    let sub = DirEntry {
        path: "dir/sub".to_string(),
        file_name: "sub".to_string(),
        is_dir: true,
        is_symlink: false,
    };
    assert_eq!(classify_entry(&sub, DirectoryMode::Recursive, &set), EntryAction::Descend);
    assert_eq!(classify_entry(&sub, DirectoryMode::Singular, &set), EntryAction::Skip);
}

#[test]
fn traversal_names_are_rejected() {
    assert!(is_safe_entry_name(b"a/b.txt"));
    assert!(is_safe_entry_name(b"plain.txt"));
    assert!(is_safe_entry_name(b"a/..b/c"));
    assert!(!is_safe_entry_name(b"../escape"));
    assert!(!is_safe_entry_name(b"a/../b"));
    assert!(!is_safe_entry_name(b"a/.."));
    assert!(!is_safe_entry_name(b"/absolute"));
    assert!(!is_safe_entry_name(b"win\\style"));
    assert!(!is_safe_entry_name(b""));

    let bad = vec![(b"../x".to_vec(), None)];
    assert_eq!(check_entry_safety(&bad).unwrap_err(), CoreError::PathTraversal);
    let good = vec![(b"x/y".to_vec(), None)];
    assert!(check_entry_safety(&good).is_ok());
}

#[test]
fn duplicate_archive_names_are_refused() {
    let files = vec![
        (b"same.txt".to_vec(), b"first".to_vec()),
        (b"same.txt".to_vec(), b"second".to_vec()),
    ];
    let r = pack_entries(&Vec::new(), &files, 6);
    assert_eq!(r.err().unwrap(), CoreError::IoError);
}

#[test]
fn invalid_exclusion_pattern_is_refused() {
    let bad = build_exclusion_set(&vec!["a[".to_string()]);
    assert_eq!(bad.err().unwrap(), CoreError::InternalError);
    let good = build_exclusion_set(&vec!["*.tmp".to_string(), "docs/**".to_string()]);
    assert!(good.is_ok());
}

#[test]
fn compression_levels_are_bounded() {
    assert_eq!(validate_compression_level(6).unwrap(), 6);
    assert_eq!(validate_compression_level(1).unwrap(), 1);
    assert_eq!(validate_compression_level(9).unwrap(), 9);
    assert!(validate_compression_level(0).is_err());
    assert!(validate_compression_level(10).is_err());
}
