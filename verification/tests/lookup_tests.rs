use gpg_ssh_keys::catalog::SshKeyInfo;
use gpg_ssh_keys::lookup::{verify_lookup_hex, HexFingerprintMatcher, LookupHexError};

#[test]
fn accepts_with_prefix() {
    assert_eq!(verify_lookup_hex("0x12345678").unwrap(), "12345678");
}

#[test]
fn accepts_bare_digits() {
    assert_eq!(verify_lookup_hex("12345678").unwrap(), "12345678");
}

#[test]
fn accepts_uppercase_letters() {
    assert_eq!(verify_lookup_hex("ABCDEF01").unwrap(), "ABCDEF01");
}

#[test]
fn normalizes_lowercase_to_uppercase() {
    assert_eq!(verify_lookup_hex("abcdef01").unwrap(), "ABCDEF01");
}

#[test]
fn rejects_seven_chars() {
    assert_eq!(verify_lookup_hex("1234567"), Err(LookupHexError::InvalidInput));
}

#[test]
fn rejects_non_hex() {
    assert_eq!(verify_lookup_hex("zzzzzzzz"), Err(LookupHexError::InvalidInput));
}

#[test]
fn matcher_accepts_and_rejects_like_the_validator() {
    assert!(HexFingerprintMatcher::new("0x12345678").is_ok());
    assert!(HexFingerprintMatcher::new("12345678").is_ok());
    assert!(HexFingerprintMatcher::new("ABCDEF01").is_ok());
    assert!(HexFingerprintMatcher::new("1234567").is_err());
    assert!(HexFingerprintMatcher::new("zzzzzzzz").is_err());
}

#[test]
fn matcher_compares_against_fingerprint_suffix() {
    let m = HexFingerprintMatcher::new("0x12345678").unwrap();
    let hit = SshKeyInfo::new("FPR1", "Alice", "AUTHFPR12345678", "GRIP1");
    let miss = SshKeyInfo::new("FPR2", "Bob", "AUTHFPR87654321", "GRIP2");
    assert!(m.matches(&hit));
    assert!(!m.matches(&miss));
}

#[test]
fn matcher_is_case_insensitive_in_the_query_only() {
    // The query is normalized to uppercase; the fingerprint suffix is
    // compared as stored.
    let m = HexFingerprintMatcher::new("abcdef01").unwrap();
    let upper = SshKeyInfo::new("FPR1", "Alice", "FPRABCDEF01", "GRIP1");
    let lower = SshKeyInfo::new("FPR2", "Bob", "fprabcdef01", "GRIP2");
    assert!(m.matches(&upper));
    assert!(!m.matches(&lower));
}

#[test]
fn short_fingerprint_never_matches() {
    let m = HexFingerprintMatcher::new("12345678").unwrap();
    let short = SshKeyInfo::new("FPR1", "Alice", "5678", "GRIP1");
    assert!(!m.matches(&short));
}

#[test]
fn find_first_returns_the_first_match() {
    let m = HexFingerprintMatcher::new("12345678").unwrap();
    let catalog = vec![
        SshKeyInfo::new("FPR1", "Alice", "AUTHFPR87654321", "GRIP1"),
        SshKeyInfo::new("FPR2", "Bob", "AUTHFPR12345678", "GRIP2"),
        SshKeyInfo::new("FPR3", "Carol", "OTHERFPR12345678", "GRIP3"),
    ];
    assert_eq!(m.find_first(&catalog), Some(1));
}

#[test]
fn find_first_reports_no_match() {
    let m = HexFingerprintMatcher::new("DDDDDDDD").unwrap();
    let catalog = vec![SshKeyInfo::new("FPR1", "Alice", "AUTHFPR12345678", "GRIP1")];
    assert_eq!(m.find_first(&catalog), None);
}
