use tgt_core::telemetry::hashing::{hash_id, hex_prefix};

#[test]
fn hash_id_is_stable_within_salt_and_differs_across_salts() {
    let salt_a = [1u8; 32];
    let salt_b = [2u8; 32];

    let first = hash_id(&salt_a, 12345);
    let second = hash_id(&salt_a, 12345);
    assert_eq!(first, second, "same salt + id must be stable");

    let differing_salt = hash_id(&salt_b, 12345);
    assert_ne!(
        first, differing_salt,
        "different salts must yield different hashes for the same id"
    );
}

#[test]
fn hash_id_is_8_bytes_hex() {
    let hash = hash_id(&[0u8; 32], 987654321);
    assert_eq!(hash.len(), 16, "8 bytes -> 16 lowercase hex chars");
    assert!(
        hash.chars()
            .all(|c| c.is_ascii_hexdigit() && !c.is_ascii_uppercase()),
        "expected lowercase hex, got {hash}"
    );
}

#[test]
fn hash_id_has_the_value_of_the_truncated_hmac() {
    assert_eq!(hash_id(&[0u8; 32], 987654321), "fd2df5aae91ec2d3");
    assert_eq!(hash_id(&[1u8; 32], -1), "1f579d1bd7a3ee58");
}

#[test]
fn hex_prefix_takes_eight_bytes_high_digit_first() {
    let digest: Vec<u8> = vec![0x00, 0x0f, 0xf0, 0xff, 0x12, 0xab, 0x9a, 0x01, 0x77];
    assert_eq!(hex_prefix(&digest), "000ff0ff12ab9a01");
}
