use helix::cli::parser::{parse_block_size, split_size_suffix, ParsedArgs};
use helix::HelixError;

#[test]
fn test_valid_block_sizes() {
    assert!(parse_block_size("4096").is_ok());
    assert!(parse_block_size("512").is_ok());
    assert!(parse_block_size("65536").is_ok());
}

#[test]
fn test_invalid_block_sizes() {
    assert!(parse_block_size("4097").is_err());
    assert!(parse_block_size("0").is_err());
    assert!(parse_block_size("abc").is_err());
}

fn message(r: Result<u32, HelixError>) -> String {
    match r {
        Err(HelixError::InvalidInput(m)) => m,
        other => panic!("unexpected result: {:?}", other),
    }
}

#[test]
fn block_size_values_and_messages() {
    assert_eq!(parse_block_size("4096").unwrap(), 4096);
    assert_eq!(parse_block_size("+1048576").unwrap(), 1_048_576);
    assert_eq!(message(parse_block_size("abc")), "Invalid block size: must be a positive integer");
    assert_eq!(message(parse_block_size("-512")), "Invalid block size: must be a positive integer");
    assert_eq!(message(parse_block_size("4097")), "Block size must be a power of two (e.g., 512, 4096, 8192)");
    assert_eq!(message(parse_block_size("0")), "Block size must be a power of two (e.g., 512, 4096, 8192)");
    assert_eq!(message(parse_block_size("256")), "Block size must be between 512 bytes and 1 MiB");
    assert_eq!(message(parse_block_size("2097152")), "Block size must be between 512 bytes and 1 MiB");
    assert_eq!(message(parse_block_size("4294967296")), "Invalid block size: must be a positive integer");
}

#[test]
fn parsed_args_defaults() {
    let a = ParsedArgs::default();
    assert_eq!(a.block_size, 4096);
    assert_eq!(a.compression_level, 3);
    assert!(a.source.is_none() && a.destination.is_none() && a.config_path.is_none());
    assert!(a.encryption_key.is_none());
    assert!(!a.verbose);
}

#[test]
fn size_units_are_split_off() {
    assert_eq!(split_size_suffix("1ki"), Some(("1".to_string(), 1024)));
    assert_eq!(split_size_suffix("10kb"), Some(("10".to_string(), 1000)));
    assert_eq!(split_size_suffix("3tb"), Some(("3".to_string(), 1_000_000_000_000)));
    assert_eq!(split_size_suffix("2 g"), Some(("2 ".to_string(), 1_000_000_000)));
    assert_eq!(split_size_suffix("1.5mi"), Some(("1.5".to_string(), 1_048_576)));
    assert_eq!(split_size_suffix("4096"), None);
}
