use gpg_ssh_keys::catalog::{gpg_keys, CatalogError, SshKeyInfo};

fn listing(lines: &[&str]) -> String {
    let mut s = String::new();
    for l in lines {
        s.push_str(l);
        s.push('\n');
    }
    s
}

#[test]
fn full_block_yields_one_entry() {
    let raw = listing(&[
        "tru::1:1700000000:0:3:1:5",
        "pub:u:255:22:0123456789ABCDEF:::::::c::::::23::0:",
        "fpr:::::::::FPR1:",
        "uid:::::::::Alice <a@x>:",
        "sub:::::::::::a:",
        "fpr:::::::::AUTHFPR12345678:",
        "grp:::::::::GRIP1:",
    ]);
    let keys = gpg_keys(&raw).unwrap();
    assert_eq!(keys.len(), 1);
    assert_eq!(keys[0].main_key_id, "FPR1");
    assert_eq!(keys[0].main_name, "Alice <a@x>");
    assert_eq!(keys[0].auth_fingerprint, "AUTHFPR12345678");
    assert_eq!(keys[0].auth_keygrip, "GRIP1");
}

#[test]
fn first_record_not_tru_is_protocol_mismatch() {
    let raw = listing(&[
        "pub:u:255:22:0123456789ABCDEF:::::::c:",
        "fpr:::::::::FPR1:",
    ]);
    assert!(matches!(gpg_keys(&raw), Err(CatalogError::ProtocolMismatch)));
}

#[test]
fn empty_output_is_protocol_mismatch() {
    assert!(matches!(gpg_keys(""), Err(CatalogError::ProtocolMismatch)));
}

#[test]
fn only_tru_header_yields_empty_catalog() {
    let keys = gpg_keys("tru::1:1700000000:0:3:1:5").unwrap();
    assert!(keys.is_empty());
}

#[test]
fn block_without_auth_subkey_yields_nothing() {
    let raw = listing(&[
        "tru::1:1700000000:0:3:1:5",
        "pub:u:255:22:0123456789ABCDEF:::::::c:",
        "fpr:::::::::FPR1:",
        "uid:::::::::Alice <a@x>:",
        "sub:::::::::::s:",
        "fpr:::::::::SIGNFPR:",
        "grp:::::::::SIGNGRIP:",
    ]);
    let keys = gpg_keys(&raw).unwrap();
    assert!(keys.is_empty());
}

#[test]
fn second_uid_does_not_change_main_name() {
    let raw = listing(&[
        "tru::1:1700000000:0:3:1:5",
        "pub:u:255:22:0123456789ABCDEF:::::::c:",
        "fpr:::::::::FPR1:",
        "uid:::::::::First <1@x>:",
        "uid:::::::::Second <2@x>:",
        "sub:::::::::::a:",
        "fpr:::::::::AUTHFPR12345678:",
        "grp:::::::::GRIP1:",
    ]);
    let keys = gpg_keys(&raw).unwrap();
    assert_eq!(keys.len(), 1);
    assert_eq!(keys[0].main_name, "First <1@x>");
}

#[test]
fn two_auth_subkeys_emit_two_entries_sharing_primary_fields() {
    let raw = listing(&[
        "tru::1:1700000000:0:3:1:5",
        "pub:u:255:22:0123456789ABCDEF:::::::c:",
        "fpr:::::::::FPR1:",
        "uid:::::::::Alice <a@x>:",
        "sub:::::::::::a:",
        "fpr:::::::::AUTHFPRAAAA1111:",
        "grp:::::::::GRIPA:",
        "sub:::::::::::a:",
        "fpr:::::::::AUTHFPRBBBB2222:",
        "grp:::::::::GRIPB:",
    ]);
    let keys = gpg_keys(&raw).unwrap();
    assert_eq!(keys.len(), 2);
    assert_eq!(keys[0].main_key_id, "FPR1");
    assert_eq!(keys[1].main_key_id, "FPR1");
    assert_eq!(keys[0].main_name, "Alice <a@x>");
    assert_eq!(keys[1].main_name, "Alice <a@x>");
    assert_eq!(keys[0].auth_fingerprint, "AUTHFPRAAAA1111");
    assert_eq!(keys[0].auth_keygrip, "GRIPA");
    assert_eq!(keys[1].auth_fingerprint, "AUTHFPRBBBB2222");
    assert_eq!(keys[1].auth_keygrip, "GRIPB");
}

#[test]
fn uid_without_field_nine_is_protocol_mismatch() {
    let raw = listing(&[
        "tru::1:1700000000:0:3:1:5",
        "pub:u:255:22:0123456789ABCDEF:::::::c:",
        "fpr:::::::::FPR1:",
        "uid:short",
    ]);
    assert!(matches!(gpg_keys(&raw), Err(CatalogError::ProtocolMismatch)));
}

#[test]
fn empty_user_id_field_is_protocol_mismatch() {
    let raw = listing(&[
        "tru::1:1700000000:0:3:1:5",
        "pub:u:255:22:0123456789ABCDEF:::::::c:",
        "fpr:::::::::FPR1:",
        "uid::::::::::",
    ]);
    assert!(matches!(gpg_keys(&raw), Err(CatalogError::ProtocolMismatch)));
}

#[test]
fn empty_primary_fingerprint_field_is_protocol_mismatch() {
    let raw = listing(&[
        "tru::1:1700000000:0:3:1:5",
        "pub:u:255:22:0123456789ABCDEF:::::::c:",
        "fpr::::::::::",
    ]);
    assert!(matches!(gpg_keys(&raw), Err(CatalogError::ProtocolMismatch)));
}

#[test]
fn empty_keygrip_field_is_protocol_mismatch() {
    let raw = listing(&[
        "tru::1:1700000000:0:3:1:5",
        "pub:u:255:22:0123456789ABCDEF:::::::c:",
        "fpr:::::::::FPR1:",
        "uid:::::::::Alice <a@x>:",
        "sub:::::::::::a:",
        "fpr:::::::::AUTHFPR12345678:",
        "grp::::::::::",
    ]);
    assert!(matches!(gpg_keys(&raw), Err(CatalogError::ProtocolMismatch)));
}

#[test]
fn unread_empty_fingerprint_field_is_tolerated() {
    // An fpr that is neither the block's second record nor inside an
    // authentication subkey is never read, so its empty field is not a
    // protocol mismatch; the block simply never completes.
    let raw = listing(&[
        "tru::1:1700000000:0:3:1:5",
        "pub:u:255:22:0123456789ABCDEF:::::::c:",
        "pub:u:255:22:FEDCBA9876543210:::::::c:",
        "fpr:::::::::FPR2:",
        "fpr::::::::::",
    ]);
    let keys = gpg_keys(&raw).unwrap();
    assert!(keys.is_empty());
}

#[test]
fn second_block_resets_pending_fields() {
    let raw = listing(&[
        "tru::1:1700000000:0:3:1:5",
        "pub:u:255:22:0123456789ABCDEF:::::::c:",
        "fpr:::::::::FPR1:",
        "uid:::::::::Alice <a@x>:",
        "pub:u:255:22:FEDCBA9876543210:::::::c:",
        "fpr:::::::::FPR2:",
        "uid:::::::::Bob <b@x>:",
        "sub:::::::::::a:",
        "fpr:::::::::AUTHFPR2222BBBB:",
        "grp:::::::::GRIP2:",
    ]);
    let keys = gpg_keys(&raw).unwrap();
    assert_eq!(keys.len(), 1);
    assert_eq!(keys[0].main_key_id, "FPR2");
    assert_eq!(keys[0].main_name, "Bob <b@x>");
}

#[test]
fn primary_fingerprint_must_be_the_second_record() {
    // The fpr arriving third is not taken as the primary key id, so the
    // block never completes.
    let raw = listing(&[
        "tru::1:1700000000:0:3:1:5",
        "pub:u:255:22:0123456789ABCDEF:::::::c:",
        "uid:::::::::Alice <a@x>:",
        "fpr:::::::::FPR1:",
        "sub:::::::::::a:",
        "fpr:::::::::AUTHFPR12345678:",
        "grp:::::::::GRIP1:",
    ]);
    let keys = gpg_keys(&raw).unwrap();
    assert!(keys.is_empty());
}

#[test]
fn surrounding_whitespace_is_ignored() {
    let raw = "\n\n  tru::1:1700000000:0:3:1:5\n".to_string();
    // Leading blank lines would shift the first record, so the trim
    // must drop them for the header check to see the tru record.
    let keys = gpg_keys(&raw).unwrap();
    assert!(keys.is_empty());
}

#[test]
fn auth_openpgp_hex_string_is_last_eight_chars() {
    let key = SshKeyInfo::new("FPR1", "Alice <a@x>", "AUTHFPR12345678", "GRIP1");
    assert_eq!(key.auth_openpgp_hex_string(), "12345678");
}
