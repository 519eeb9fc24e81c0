use aes_gcm::aead::{Aead, KeyInit};
use download_core::secure_storage::{
    decrypt_setting, encrypt_setting, from_hex, machine_id, seal_setting, system_key, to_hex,
    SecureStorageError,
};
use download_core::vault::{
    alternate_name, count_vault_files, detect_file_type, encrypted_name, file_from_base64,
    file_to_base64, folder_entry, get_vault_key, is_vault_file_name, reencrypt, resolve_name,
    DiskFile, Vault, VaultFile,
};
use download_core::vault_crypto::{
    chunk_nonce, decrypt, encode_header, encrypt, encrypt_v2, seal_chunk, VaultError, CHUNK_SIZE,
};

fn sample(len: usize) -> Vec<u8> {
    (0..len).map(|i| (i % 256) as u8).collect()
}

#[test]
fn scenario_vault_round_trip() {
    let mut vault = Vault::new();
    assert!(vault.setup("1234").is_ok());
    let key = get_vault_key(&vault).ok().unwrap();
    let content = sample(2_560_000);
    let record = VaultFile::new_file(
        "movie.bin".to_string(),
        content.len() as u64,
        "file".to_string(),
        None,
    );
    assert_eq!(record.encrypted_name, format!("{}.enc", record.id));
    assert_eq!(record.size_bytes, 2_560_000);
    let stored = encrypt(&key, &content).ok().unwrap();
    assert_eq!(&stored[0..4], b"SLV2");
    assert_eq!(&stored[16..24], &2_560_000u64.to_le_bytes());
    assert_eq!(stored.len(), 24 + 2_560_000 + 3 * (4 + 16));

    vault.lock();
    assert_eq!(get_vault_key(&vault).err(), Some(VaultError::Locked));
    assert!(vault.unlock("1234").is_ok());
    let key_again = get_vault_key(&vault).ok().unwrap();
    assert_eq!(key, key_again);
    let exported = decrypt(&key_again, &stored).ok().unwrap();
    assert_eq!(exported, content);
}

#[test]
fn wrong_pin_is_rejected_without_saying_why() {
    let mut a = Vault::new();
    let mut b = Vault::new();
    a.setup("1234").ok().unwrap();
    b.setup("4321").ok().unwrap();
    let stored = encrypt(&get_vault_key(&a).ok().unwrap(), &sample(10)).ok().unwrap();
    let err = decrypt(&get_vault_key(&b).ok().unwrap(), &stored).err().unwrap();
    assert_eq!(err, VaultError::ChunkRejected(0));
    assert!(err.message().contains("invalid PIN or corrupted file"));
    assert_eq!(
        err.message(),
        "Decryption failed at chunk 0 - invalid PIN or corrupted file"
    );
    assert_eq!(
        VaultError::LegacyRejected.message(),
        "Decryption failed - invalid PIN or corrupted file"
    );
}

#[test]
fn round_trip_for_sizes_around_the_chunk_size() {
    let key = [7u8; 32];
    let base = [9u8; 12];
    for len in [0usize, 1, 15, CHUNK_SIZE - 1, CHUNK_SIZE, CHUNK_SIZE + 1, 2 * CHUNK_SIZE] {
        let content = sample(len);
        let stored = encrypt_v2(&key, &base, &content).ok().unwrap();
        let chunks = (len + CHUNK_SIZE - 1) / CHUNK_SIZE;
        assert_eq!(stored.len(), 24 + len + chunks * 20);
        assert_eq!(decrypt(&key, &stored).ok().unwrap(), content);
    }
}

#[test]
fn format_is_as_documented() {
    let key = [1u8; 32];
    let base: [u8; 12] = [0, 1, 2, 3, 4, 5, 6, 7, 8, 9, 10, 11];
    assert_eq!(chunk_nonce(&base, 0), base);
    assert_eq!(chunk_nonce(&base, 1), [1, 1, 2, 3, 4, 5, 6, 7, 8, 9, 10, 11]);
    assert_eq!(
        chunk_nonce(&base, 0x0102030405060708),
        [0 ^ 8, 1 ^ 7, 2 ^ 6, 3 ^ 5, 4 ^ 4, 5 ^ 3, 6 ^ 2, 7 ^ 1, 8, 9, 10, 11]
    );
    let header = encode_header(&base, 0x1122334455667788);
    assert_eq!(&header[0..4], b"SLV2");
    assert_eq!(&header[4..16], &base);
    assert_eq!(&header[16..24], &[0x88, 0x77, 0x66, 0x55, 0x44, 0x33, 0x22, 0x11]);

    let stored = encrypt_v2(&key, &base, b"hello").ok().unwrap();
    assert_eq!(&stored[24..28], &21u32.to_le_bytes());
    let cipher = aes_gcm::Aes256Gcm::new_from_slice(&key).unwrap();
    let expected = cipher
        .encrypt(aes_gcm::Nonce::from_slice(&base), b"hello".as_ref())
        .unwrap();
    assert_eq!(&stored[28..], &expected[..]);
    let frame = seal_chunk(&key, &base, 0, b"hello").ok().unwrap();
    assert_eq!(&stored[24..], &frame[..]);
    assert_eq!(
        seal_chunk(&key, &base, 0, &vec![0u8; CHUNK_SIZE + 1]).err(),
        Some(VaultError::ChunkTooLarge)
    );
}

#[test]
fn nonces_of_one_file_differ() {
    let base = [0xAAu8; 12];
    let mut seen = std::collections::HashSet::new();
    for i in [0u64, 1, 2, 255, 256, 65535, 1 << 32, u64::MAX - 1, u64::MAX] {
        assert!(seen.insert(chunk_nonce(&base, i)));
    }
}

#[test]
fn truncation_and_extension_are_detected() {
    let key = [3u8; 32];
    let base = [4u8; 12];
    let content = sample(CHUNK_SIZE + 10);
    let stored = encrypt_v2(&key, &base, &content).ok().unwrap();
    let first_frame_end = 24 + 4 + CHUNK_SIZE + 16;
    let cut = &stored[..first_frame_end];
    assert_eq!(
        decrypt(&key, cut).err(),
        Some(VaultError::SizeMismatch {
            expected: (CHUNK_SIZE + 10) as u64,
            got: CHUNK_SIZE as u64
        })
    );
    assert_eq!(
        VaultError::SizeMismatch { expected: 5, got: 3 }.message(),
        "File size mismatch: expected 5 bytes, got 3 bytes"
    );
    let mut longer = stored.clone();
    let extra = seal_chunk(&key, &base, 2, b"more").ok().unwrap();
    longer.extend_from_slice(&extra);
    assert_eq!(
        decrypt(&key, &longer).err(),
        Some(VaultError::SizeMismatch {
            expected: (CHUNK_SIZE + 10) as u64,
            got: (CHUNK_SIZE + 14) as u64
        })
    );
    assert_eq!(decrypt(&key, &stored[..24]).err().is_some(), true);
    assert_eq!(
        decrypt(&key, &stored[..stored.len() - 1]).err(),
        Some(VaultError::TruncatedChunk(1))
    );
    let mut flipped = stored.clone();
    let last = flipped.len() - 1;
    flipped[last] ^= 1;
    assert_eq!(decrypt(&key, &flipped).err(), Some(VaultError::ChunkRejected(1)));
}

#[test]
fn short_files_are_refused() {
    let key = [0u8; 32];
    assert_eq!(decrypt(&key, b"").err(), Some(VaultError::HeaderTooShort));
    assert_eq!(decrypt(&key, b"SLV").err(), Some(VaultError::HeaderTooShort));
    assert_eq!(decrypt(&key, b"SLV2").err(), Some(VaultError::MissingNonce));
    assert_eq!(decrypt(&key, b"SLV2123456789012").err(), Some(VaultError::MissingSize));
    assert_eq!(decrypt(&key, b"abcd").err(), Some(VaultError::LegacyNonceTooShort));
    assert_eq!(decrypt(&key, b"abcdefghijkl").err(), Some(VaultError::LegacyRejected));
    let empty = encrypt_v2(&key, &[1u8; 12], b"").ok().unwrap();
    assert_eq!(empty.len(), 24);
    assert_eq!(decrypt(&key, &empty).ok().unwrap(), Vec::<u8>::new());
}

#[test]
fn legacy_files_are_read() {
    let key = [5u8; 32];
    let nonce = [6u8; 12];
    let content = sample(70_000);
    let cipher = aes_gcm::Aes256Gcm::new_from_slice(&key).unwrap();
    let mut stored = nonce.to_vec();
    stored.extend_from_slice(
        &cipher
            .encrypt(aes_gcm::Nonce::from_slice(&nonce), content.as_ref())
            .unwrap(),
    );
    assert_eq!(decrypt(&key, &stored).ok().unwrap(), content);
    assert_eq!(decrypt(&[0u8; 32], &stored).err(), Some(VaultError::LegacyRejected));
}

#[test]
fn vault_life_cycle() {
    let mut vault = Vault::new();
    assert_eq!(vault.unlock("1234").err(), Some(VaultError::NotSetUp));
    assert_eq!(vault.reset("1234").err(), Some(VaultError::NotSetUp));
    assert_eq!(vault.setup("123").err(), Some(VaultError::PinTooShort));
    assert_eq!(vault.setup("äöü").err(), Some(VaultError::PinTooShort));
    assert!(vault.config.is_none());
    assert!(vault.setup("äöüß").is_ok());
    assert_eq!(vault.setup("5678").err(), Some(VaultError::AlreadySetUp));
    let status = vault.status(3, 100);
    assert!(status.is_setup && status.is_unlocked);
    assert_eq!((status.file_count, status.total_size_bytes), (3, 100));
    let config = vault.config.clone().unwrap();
    assert!(config.pin_hash.starts_with("$argon2"));
    assert_eq!(config.salt.len(), 22);
    assert!(config.last_accessed.is_none());

    vault.lock();
    assert!(vault.session.is_none());
    assert!(!vault.status(3, 100).is_unlocked);
    assert_eq!(vault.unlock("wrong").err(), Some(VaultError::InvalidPin));
    assert!(vault.session.is_none());
    assert!(vault.unlock_at("äöüß", 77).is_ok());
    assert_eq!(vault.session.unwrap().unlocked_at, 77);
    assert_eq!(vault.config.clone().unwrap().last_accessed, Some(77));

    let mut other = Vault::from_config(Some(config));
    assert!(other.session.is_none());
    assert!(other.unlock("äöüß").is_ok());
    assert_eq!(other.session.unwrap().key, vault.session.unwrap().key);

    assert_eq!(vault.reset("nope").err(), Some(VaultError::InvalidPin));
    assert!(vault.reset("äöüß").is_ok());
    assert!(vault.config.is_none() && vault.session.is_none());
    let status = vault.status(3, 100);
    assert!(!status.is_setup);
    assert_eq!((status.file_count, status.total_size_bytes), (0, 0));

    let mut broken = Vault::new();
    broken.import_config(download_core::vault::VaultConfig {
        pin_hash: "not a hash".to_string(),
        salt: "c2FsdHNhbHQ".to_string(),
        created_at: 0,
        last_accessed: None,
    });
    assert_eq!(broken.unlock("1234").err(), Some(VaultError::InvalidStoredHash));
    broken.wipe_local_config();
    assert!(broken.config.is_none());
}

#[test]
fn changing_the_pin_moves_files_to_the_new_key() {
    let mut vault = Vault::new();
    vault.setup_with("1234", &[1u8; 16], 10).ok().unwrap();
    let old_key = get_vault_key(&vault).ok().unwrap();
    let content = sample(5000);
    let stored = encrypt(&old_key, &content).ok().unwrap();

    assert_eq!(vault.plan_pin_change("1234", "12").err(), Some(VaultError::PinTooShort));
    assert_eq!(vault.plan_pin_change("0000", "5678").err(), Some(VaultError::InvalidPin));
    let change = vault.plan_pin_change_with("1234", "5678", &[2u8; 16], 20).ok().unwrap();
    assert_eq!(change.old_key, old_key);
    assert_ne!(change.new_key, old_key);
    assert_eq!(change.new_config.created_at, 10);
    assert_eq!(change.new_config.last_accessed, Some(20));
    let moved = reencrypt(&change.old_key, &change.new_key, &stored).ok().unwrap();
    assert_eq!(decrypt(&change.new_key, &moved).ok().unwrap(), content);
    assert!(decrypt(&old_key, &moved).is_err());
    assert_eq!(
        reencrypt(&change.new_key, &old_key, &stored).err(),
        Some(VaultError::ChunkRejected(0))
    );
    let new_key = change.new_key;
    vault.commit_pin_change_at(change, 30);
    assert_eq!(get_vault_key(&vault).ok().unwrap(), new_key);
    vault.lock();
    assert_eq!(vault.unlock("1234").err(), Some(VaultError::InvalidPin));
    assert!(vault.unlock("5678").is_ok());
    assert_eq!(get_vault_key(&vault).ok().unwrap(), new_key);
}

#[test]
fn same_pin_and_salt_give_the_same_key() {
    let mut a = Vault::new();
    let mut b = Vault::new();
    a.setup_with("1234", &[8u8; 16], 1).ok().unwrap();
    b.setup_with("1234", &[8u8; 16], 2).ok().unwrap();
    assert_eq!(a.session.unwrap().key, b.session.unwrap().key);
    let mut c = Vault::new();
    c.setup_with("1234", &[9u8; 16], 1).ok().unwrap();
    assert_ne!(a.session.unwrap().key, c.session.unwrap().key);
}

#[test]
fn hex() {
    assert_eq!(to_hex(&[]), "");
    assert_eq!(to_hex(&[0x00, 0x0f, 0xa0, 0xff]), "000fa0ff");
    assert_eq!(from_hex("000fA0ff").ok().unwrap(), vec![0x00, 0x0f, 0xa0, 0xff]);
    assert_eq!(from_hex("").ok().unwrap(), Vec::<u8>::new());
    assert_eq!(from_hex("abc").err(), Some(SecureStorageError::InvalidHexLength));
    assert_eq!(from_hex("zz").err(), Some(SecureStorageError::InvalidHexCharacter));
    assert_eq!(from_hex("+f").err(), Some(SecureStorageError::InvalidHexCharacter));
    assert_eq!(from_hex("é").err(), Some(SecureStorageError::InvalidHexCharacter));
    let all: Vec<u8> = (0..=255).collect();
    assert_eq!(from_hex(&to_hex(&all)).ok().unwrap(), all);
    assert_eq!(SecureStorageError::InvalidHexLength.message(), "Invalid hex string length");
}

#[test]
fn settings_are_sealed_and_opened() {
    let key = [2u8; 32];
    let stored = seal_setting(&key, &[3u8; 12], "tökén").ok().unwrap();
    assert!(stored.starts_with("030303030303030303030303"));
    assert_eq!(stored.len(), 2 * (12 + "tökén".len() + 16));
    assert_eq!(decrypt_setting(&key, &stored).ok().unwrap(), "tökén");
    assert_eq!(
        decrypt_setting(&[0u8; 32], &stored).err(),
        Some(SecureStorageError::DecryptionFailed)
    );
    assert_eq!(decrypt_setting(&key, "0011").err(), Some(SecureStorageError::Corrupted));
    assert_eq!(decrypt_setting(&key, "001").err(), Some(SecureStorageError::InvalidHexLength));
    let random = encrypt_setting(&key, "value").ok().unwrap();
    assert_eq!(decrypt_setting(&key, &random).ok().unwrap(), "value");
    assert_ne!(random, encrypt_setting(&key, "value").ok().unwrap());

    let cipher = aes_gcm::Aes256Gcm::new_from_slice(&key).unwrap();
    let nonce = [1u8; 12];
    let mut raw = nonce.to_vec();
    raw.extend_from_slice(
        &cipher
            .encrypt(aes_gcm::Nonce::from_slice(&nonce), [0xffu8, 0xfe].as_ref())
            .unwrap(),
    );
    assert_eq!(
        decrypt_setting(&key, &to_hex(&raw)).err(),
        Some(SecureStorageError::InvalidUtf8)
    );

    assert_eq!(machine_id(Some("PC"), Some("me"), None), b"PCme".to_vec());
    assert_eq!(machine_id(None, None, None), b"fallback_machine_id".to_vec());
    let k1 = system_key(b"PCme", &[1u8; 16]).unwrap();
    let k2 = system_key(b"PCme", &[1u8; 16]).unwrap();
    let k3 = system_key(b"PCyou", &[1u8; 16]).unwrap();
    assert_eq!(k1, k2);
    assert_ne!(k1, k3);
    assert!(system_key(b"PCme", &[1u8; 4]).is_none());
}

#[test]
fn file_types_and_names() {
    assert_eq!(detect_file_type("MP4"), "video");
    assert_eq!(detect_file_type("flac"), "audio");
    assert_eq!(detect_file_type("Jpeg"), "image");
    assert_eq!(detect_file_type("zip"), "file");
    assert_eq!(detect_file_type(""), "file");
    assert_eq!(encrypted_name("abc"), "abc.enc");
    assert!(is_vault_file_name("abc.enc"));
    assert!(is_vault_file_name("abc.vault"));
    assert!(!is_vault_file_name(".enc"));
    assert!(!is_vault_file_name("abc.txt"));
    assert_eq!(alternate_name("abc.enc").as_deref(), Some("abc.vault"));
    assert_eq!(alternate_name("abc.vault").as_deref(), Some("abc.enc"));
    assert_eq!(alternate_name("abc.txt"), None);
    assert_eq!(resolve_name("abc.enc", true, true).as_deref(), Some("abc.enc"));
    assert_eq!(resolve_name("abc.enc", false, true).as_deref(), Some("abc.vault"));
    assert_eq!(resolve_name("abc.enc", false, false), None);
    assert_eq!(resolve_name("abc.txt", false, true), None);
    let files = vec![
        DiskFile { name: "a.enc".to_string(), size: 10 },
        DiskFile { name: "b.vault".to_string(), size: 5 },
        DiskFile { name: "index.json".to_string(), size: 1000 },
    ];
    assert_eq!(count_vault_files(&files), (2, 15));
    assert_eq!(count_vault_files(&Vec::new()), (0, 0));
}

#[test]
fn folders() {
    assert!(folder_entry("", true, 0).is_none());
    let e = folder_entry("sub\\clip.MKV", false, 42).unwrap();
    assert_eq!(e.name, "clip.MKV");
    assert_eq!(e.path, "sub/clip.MKV");
    assert_eq!(e.size_bytes, 42);
    assert_eq!(e.file_type, "video");
    assert!(!e.is_directory);
    let d = folder_entry("sub", true, 4096).unwrap();
    assert_eq!(d.file_type, "directory");
    assert_eq!(d.size_bytes, 0);
    let hidden = folder_entry("sub/.mp3", false, 1).unwrap();
    assert_eq!(hidden.file_type, "file");
    let plain = folder_entry("README", false, 1).unwrap();
    assert_eq!(plain.file_type, "file");
    let record = VaultFile::for_folder("id1".to_string(), "Trip".to_string(), vec![e, d, hidden], 5);
    assert!(record.is_folder);
    assert_eq!(record.size_bytes, 43);
    assert_eq!(record.file_type, "folder");
    assert_eq!(record.encrypted_name, "id1.enc");
    assert_eq!(record.added_at, 5);
    assert_eq!(record.folder_entries.unwrap().len(), 3);
    let f = VaultFile::for_file(
        "id2".to_string(),
        "a.mp3".to_string(),
        9,
        "audio".to_string(),
        Some("thumb".to_string()),
        6,
    );
    assert!(!f.is_folder);
    assert_eq!(f.thumbnail.as_deref(), Some("thumb"));
    let g = VaultFile::new_folder("x".to_string(), Vec::new());
    assert_eq!(g.id.len(), 36);
    assert_ne!(g.id, VaultFile::new_folder("x".to_string(), Vec::new()).id);
}

#[test]
fn base64_text() {
    assert_eq!(file_to_base64(b"hello world~"), "aGVsbG8gd29ybGR+");
    assert_eq!(file_from_base64("aGVsbG8gd29ybGR+").unwrap(), b"hello world~".to_vec());
    assert!(file_from_base64("not base64!").is_none());
    let data = sample(1000);
    assert_eq!(file_from_base64(&file_to_base64(&data)).unwrap(), data);
}

#[test]
fn a_salt_that_is_too_short_gives_no_key() {
    let mut vault = Vault::new();
    vault.setup_with("1234", &[1u8; 16], 0).ok().unwrap();
    let mut config = vault.config.clone().unwrap();
    config.salt = "abc".to_string();
    let mut other = Vault::from_config(Some(config));
    assert_eq!(other.unlock("1234").err(), Some(VaultError::KeyDerivationFailed));
    assert!(other.session.is_none());
    assert_eq!(
        other.plan_pin_change("1234", "5678").err(),
        Some(VaultError::KeyDerivationFailed)
    );
}

#[test]
fn every_error_has_its_words() {
    let all = [
        (VaultError::HeaderTooShort, "Failed to read file header"),
        (VaultError::MissingNonce, "Failed to read nonce"),
        (VaultError::MissingSize, "Failed to read file size"),
        (VaultError::TruncatedChunk(3), "Failed to read encrypted chunk 3"),
        (VaultError::LegacyNonceTooShort, "Failed to read legacy nonce"),
        (VaultError::ChunkTooLarge, "Chunk is larger than the format allows"),
        (VaultError::EncryptionFailed(2), "Encryption failed at chunk 2"),
        (VaultError::NoRandomness, "No random bytes available"),
        (VaultError::PinTooShort, "PIN must be at least 4 digits"),
        (VaultError::AlreadySetUp, "Vault is already set up. Reset it first to change PIN."),
        (VaultError::NotSetUp, "Vault is not set up"),
        (VaultError::Locked, "Vault is locked. Unlock it first."),
        (VaultError::InvalidStoredHash, "Invalid stored hash"),
        (VaultError::InvalidPin, "Invalid PIN"),
        (VaultError::HashingFailed, "Failed to hash PIN"),
        (VaultError::KeyDerivationFailed, "Failed to derive key from PIN"),
    ];
    for (error, words) in all {
        assert_eq!(error.message(), words);
    }
    assert_eq!(SecureStorageError::InvalidHexCharacter.message(), "Invalid hex character");
    assert_eq!(SecureStorageError::Corrupted.message(), "Stored data is corrupted");
    assert_eq!(SecureStorageError::InvalidUtf8.message(), "Invalid UTF-8 in decrypted data");
    assert_eq!(SecureStorageError::EncryptionFailed.message(), "Encryption failed");
    assert_eq!(SecureStorageError::NoRandomness.message(), "No random bytes available");
    assert!(SecureStorageError::DecryptionFailed.message().starts_with("Decryption failed"));
}
