use helix::crypto::compression::Compressor;
use helix::crypto::encryption::{derive_key_from_password, Encryptor};
use helix::HelixError;

#[test]
fn test_compress_decompress_roundtrip() {
    let compressor = Compressor::new(3);
    let data = b"Hello, Helix compression! This is test data that should compress well. ".repeat(100);

    let compressed = compressor.compress(&data).unwrap();
    let decompressed = compressor.decompress(&compressed).unwrap();

    assert_eq!(data.to_vec(), decompressed);
    assert!(compressed.len() < data.len(), "Compression should reduce size");
}

#[test]
fn test_compression_levels() {
    let data = b"a".repeat(10000);

    let fast = Compressor::new(1);
    let max = Compressor::new(22);

    let fast_compressed = fast.compress(&data).unwrap();
    let max_compressed = max.compress(&data).unwrap();

    assert!(max_compressed.len() <= fast_compressed.len(), "Higher compression should not increase size");
}

#[test]
fn compression_level_is_clamped() {
    assert_eq!(Compressor::new(0).level(), 1);
    assert_eq!(Compressor::new(-7).level(), 1);
    assert_eq!(Compressor::new(9).level(), 9);
    assert_eq!(Compressor::new(40).level(), 22);
}

#[test]
fn compress_blocks_keeps_lengths() {
    let c = Compressor::new(3);
    let blocks = vec![vec![1u8; 4096], vec![], vec![2u8; 10]];
    let out = c.compress_blocks(&blocks).unwrap();
    assert_eq!(out.len(), 3);
    for (i, (len, frame)) in out.iter().enumerate() {
        assert_eq!(*len, blocks[i].len());
        assert_eq!(c.decompress(frame).unwrap(), blocks[i]);
        assert_eq!(*frame, zstd::stream::encode_all(&blocks[i][..], 3).unwrap());
    }
}

#[test]
fn decompress_rejects_garbage() {
    let c = Compressor::new(3);
    assert!(matches!(c.decompress(b"not a zstd frame"), Err(HelixError::Io(_))));
}

#[test]
fn test_encrypt_decrypt_roundtrip() {
    let key = Encryptor::generate_key();
    let encryptor = Encryptor::new(&key);

    let data = b"Hello, Helix encryption!";
    let encrypted = encryptor.encrypt(data).unwrap();
    let decrypted = encryptor.decrypt(&encrypted).unwrap();

    assert_eq!(data.to_vec(), decrypted);
    assert_ne!(data.to_vec(), encrypted);
}

#[test]
fn test_different_keys() {
    let key1 = Encryptor::generate_key();
    let key2 = Encryptor::generate_key();

    let enc1 = Encryptor::new(&key1);
    let enc2 = Encryptor::new(&key2);

    let data = b"secret data";
    let encrypted = enc1.encrypt(data).unwrap();

    assert!(enc2.decrypt(&encrypted).is_err());
}

#[test]
fn test_key_derivation() {
    let salt = b"helix-salt-12345";
    let key1 = derive_key_from_password("password123", salt);
    let key2 = derive_key_from_password("password123", salt);
    let key3 = derive_key_from_password("different", salt);

    assert_eq!(key1, key2);
    assert_ne!(key1, key3);
}

#[test]
fn key_derivation_hashes_password_then_salt() {
    let mut input = b"pw".to_vec();
    input.extend_from_slice(b"salt");
    assert_eq!(derive_key_from_password("pw", b"salt"), *blake3::hash(&input).as_bytes());
}

#[test]
fn encrypted_layout_and_errors() {
    let e = Encryptor::new(&[7u8; 32]);
    let out = e.encrypt(b"abc").unwrap();
    assert_eq!(out.len(), 12 + 3 + 16);
    match e.decrypt(&out[..11]) {
        Err(HelixError::Encryption(m)) => assert_eq!(m, "Invalid encrypted data: too short"),
        other => panic!("unexpected {:?}", other),
    }
    let mut tampered = out.clone();
    tampered[20] ^= 1;
    match e.decrypt(&tampered) {
        Err(HelixError::Encryption(m)) => assert_eq!(m, "Decryption failed: aead::Error"),
        other => panic!("unexpected {:?}", other),
    }
}
