use mcdebug_launcher::digest::{
    check_archive_sha256, digest_matches, expected_sha256, rcon_password_from, sha1_hex, sha256_hex,
};

#[test]
fn known_digests() {
    assert_eq!(sha1_hex(b"abc"), "a9993e364706816aba3e25717850c26c9cd0d89d");
    assert_eq!(sha1_hex(b""), "da39a3ee5e6b4b0d3255bfef95601890afd80709");
    assert_eq!(sha256_hex(b"abc"), "ba7816bf8f01cfea414140de5dae2223b00361a396177a9cb410ff61f20015ad");
}

#[test]
fn rcon_passwords_from_seeds() {
    let a = rcon_password_from(b"abc");
    assert_eq!(a, "a9993e364706816aba3e2571");
    let b = rcon_password_from(b"abd");
    assert_eq!(a.len(), 24);
    assert_ne!(a, b);
    assert!(b.chars().all(|c| c.is_ascii_hexdigit()));
}

#[test]
fn published_digest_checks() {
    let abc = "ba7816bf8f01cfea414140de5dae2223b00361a396177a9cb410ff61f20015ad";
    assert!(digest_matches(b"abc", None));
    assert!(digest_matches(b"abc", Some(abc)));
    assert!(digest_matches(b"abc", Some(&format!("sha256:{}", abc.to_uppercase()))));
    assert!(!digest_matches(b"abd", Some(abc)));
}

#[test]
fn checksum_listing_lookup() {
    let listing = "E3B0C44298FC1C149AFBF4C8996FB92427AE41E4649B934CA495991B7852B855  other.zip\r\n\
                   BA7816BF8F01CFEA414140DE5DAE2223B00361A396177A9CB410FF61F20015AD *aprism-jdk.tar.gz\n\
                   garbage\n";
    assert_eq!(
        expected_sha256(listing, "aprism-jdk.tar.gz"),
        Some("ba7816bf8f01cfea414140de5dae2223b00361a396177a9cb410ff61f20015ad".to_string())
    );
    assert_eq!(
        expected_sha256(listing, "other.zip"),
        Some("e3b0c44298fc1c149afbf4c8996fb92427ae41e4649b934ca495991b7852b855".to_string())
    );
    assert_eq!(expected_sha256(listing, "missing.zip"), None);
}

#[test]
fn archive_verification() {
    let abc = "ba7816bf8f01cfea414140de5dae2223b00361a396177a9cb410ff61f20015ad";
    assert_eq!(check_archive_sha256(b"abc", abc), Ok(()));
    assert_eq!(
        check_archive_sha256(b"abc", "00"),
        Err(format!("AprismJDK archive failed SHA-256 verification: expected 00, got {abc}"))
    );
}
