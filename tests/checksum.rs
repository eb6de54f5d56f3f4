use fridex::checksum::{checksum_matches, digest_matches, find_checksum, sha256_hex, split_words, to_hex};

#[test]
fn sha256_of_abc() {
    assert_eq!(sha256_hex(b"abc"), "ba7816bf8f01cfea414140de5dae2223b00361a396177a9cb410ff61f20015ad");
    assert!(checksum_matches("ba7816bf8f01cfea414140de5dae2223b00361a396177a9cb410ff61f20015ad", b"abc"));
    assert!(!checksum_matches("ba7816bf8f01cfea414140de5dae2223b00361a396177a9cb410ff61f20015ae", b"abc"));
}

#[test]
fn hex_encoding() {
    assert_eq!(to_hex(&[0x00, 0x0f, 0xa0, 0xff]), "000fa0ff");
    assert!(digest_matches("0aff", &[0x0a, 0xff]));
    assert!(!digest_matches("0AFF", &[0x0a, 0xff]));
}

#[test]
fn checksum_listing() {
    let listing = "aaa  node-v20.11.1-darwin-arm64.tar.gz\r\nbbb  node-v20.11.1-linux-x64.tar.gz\nccc\n";
    assert_eq!(find_checksum(listing, "node-v20.11.1-linux-x64.tar.gz"), Some("bbb".to_string()));
    assert_eq!(find_checksum(listing, "node-v20.11.1-darwin-arm64.tar.gz"), Some("aaa".to_string()));
    assert_eq!(find_checksum(listing, "missing.tar.gz"), None);
    assert_eq!(find_checksum("", "x"), None);
}

#[test]
fn words_of_a_line() {
    assert_eq!(split_words("  a\tbb  c "), vec!["a".to_string(), "bb".to_string(), "c".to_string()]);
    assert!(split_words("   ").is_empty());
}
