//! Tests of the server hash computation.

use mojang_api::server_hash;
use sha1::Sha1;

#[test]
fn server_hash_is_deterministic() {
    let first = server_hash("", [0u8; 16], &[0x01]);
    let second = server_hash("", [0u8; 16], &[0x01]);
    assert_eq!(first, second);
}

#[test]
fn server_hash_matches_hexdigest_of_concatenation() {
    let secret = [7u8; 16];
    let key = [1u8, 2, 3, 4];
    let mut hasher = Sha1::new();
    hasher.update(b"abc");
    hasher.update(&secret);
    hasher.update(&key);
    assert_eq!(
        server_hash("abc", secret, &key),
        mojang_api::hexdigest(&hasher)
    );
}

#[test]
fn server_hash_changes_with_server_id() {
    let base = server_hash("a", [0u8; 16], &[0x01]);
    assert_ne!(server_hash("b", [0u8; 16], &[0x01]), base);
}

#[test]
fn server_hash_changes_with_shared_secret() {
    let base = server_hash("a", [0u8; 16], &[0x01]);
    for i in 0..16 {
        let mut secret = [0u8; 16];
        secret[i] = 1;
        assert_ne!(server_hash("a", secret, &[0x01]), base);
    }
}

#[test]
fn server_hash_changes_with_public_key() {
    let base = server_hash("a", [0u8; 16], &[0x01]);
    assert_ne!(server_hash("a", [0u8; 16], &[0x02]), base);
    assert_ne!(server_hash("a", [0u8; 16], &[0x01, 0x00]), base);
}

#[test]
fn server_hash_empty_id_and_key() {
    // With an empty server id and an empty key only the 16 secret bytes are
    // fed, so the result is the rendering of SHA-1 over those bytes alone.
    assert_eq!(
        server_hash("", [0u8; 16], &[]),
        mojang_api::hexdigest(&Sha1::from([0u8; 16].as_slice()))
    );
}
