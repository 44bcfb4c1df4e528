use helix::block::hasher::{compute_checksum, BlockHasher};

#[test]
fn test_hash_consistency() {
    let hasher = BlockHasher::new();
    let data = b"Hello, Helix!";
    let hash1 = hasher.hash_block(data);
    let hash2 = hasher.hash_block(data);
    assert_eq!(hash1.hash, hash2.hash);
}

#[test]
fn test_hash_different_data() {
    let hasher = BlockHasher::new();
    let h1 = hasher.hash_block(b"data1");
    let h2 = hasher.hash_block(b"data2");
    assert_ne!(h1.hash, h2.hash);
}

#[test]
fn test_verify_block() {
    let hasher = BlockHasher::new();
    let data = b"verify me";
    let hash = hasher.hash_block(data);
    assert!(hasher.verify_block(data, &hash));
    assert!(!hasher.verify_block(b"wrong", &hash));
}

#[test]
fn test_checksum_format() {
    let cs = compute_checksum(b"test");
    assert_eq!(cs.len(), 64);
    assert!(cs.chars().all(|c| c.is_ascii_hexdigit()));
}

#[test]
fn checksum_of_empty_input() {
    assert_eq!(
        compute_checksum(b""),
        "af1349b9f5f9a1a6a0404dea36dcc9499bcb25c9adc112b7cc9a93cae41f3262"
    );
}

#[test]
fn hash_records_number_and_length() {
    let hasher = BlockHasher::new();
    let h = hasher.hash_block_with_number(42, &[7u8; 100]);
    assert_eq!(h.block_number, 42);
    assert_eq!(h.block_size, 100);
    assert_eq!(hasher.hash_block(&[7u8; 100]).block_number, 0);
    assert_eq!(h.hash, *blake3::hash(&[7u8; 100]).as_bytes());
}

#[test]
fn raw_hash_is_the_digest() {
    assert_eq!(BlockHasher::hash_raw(b"abc"), *blake3::hash(b"abc").as_bytes());
    assert_eq!(BlockHasher::hash_raw(b"abc"), BlockHasher::new().hash_block(b"abc").hash);
}
