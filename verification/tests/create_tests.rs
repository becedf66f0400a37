use gpg_ssh_keys::catalog::CatalogError;
use gpg_ssh_keys::create::{
    add_sub_key_auth, add_sub_key_encr, add_sub_key_sign, created_key_fingerprint, KeyAlgo,
};

fn strings(items: &[&str]) -> Vec<String> {
    items.iter().map(|s| s.to_string()).collect()
}

#[test]
fn key_algo_names() {
    assert_eq!(KeyAlgo::ED25519.name(), "ed25519");
    assert_eq!(KeyAlgo::ED25519.encryption_name(), "cv25519");
}

#[test]
fn sign_subkey_arguments() {
    assert_eq!(
        add_sub_key_sign("KEYID", &KeyAlgo::ED25519),
        strings(&["--quick-add-key", "KEYID", "ed25519", "sign", "never"]),
    );
}

#[test]
fn encryption_subkey_arguments() {
    assert_eq!(
        add_sub_key_encr("KEYID", &KeyAlgo::ED25519),
        strings(&["--quick-add-key", "KEYID", "cv25519", "encr", "never"]),
    );
}

#[test]
fn auth_subkey_arguments() {
    assert_eq!(
        add_sub_key_auth("KEYID", &KeyAlgo::ED25519),
        strings(&["--quick-add-key", "KEYID", "ed25519", "auth", "never"]),
    );
}

#[test]
fn fingerprint_of_fresh_key_is_found() {
    let raw = "pub:u:255:22:AAAA:\nfpr:::::::::NEWKEYFPR:\ngrp:::::::::NEWGRIP:\n";
    assert_eq!(created_key_fingerprint(raw).unwrap(), Some("NEWKEYFPR".to_string()));
}

#[test]
fn only_the_trailing_block_is_scanned() {
    let raw = "fpr:::::::::OLDFPR:\n\npub:u:255:22:AAAA:\nfpr:::::::::NEWKEYFPR:\n";
    assert_eq!(created_key_fingerprint(raw).unwrap(), Some("NEWKEYFPR".to_string()));
}

#[test]
fn first_fpr_of_the_block_wins() {
    let raw = "fpr:::::::::FIRSTFPR:\nfpr:::::::::SECONDFPR:\n";
    assert_eq!(created_key_fingerprint(raw).unwrap(), Some("FIRSTFPR".to_string()));
}

#[test]
fn output_without_fpr_reports_none() {
    let raw = "pub:u:255:22:AAAA:\nuid:::::::::Alice:\n";
    assert_eq!(created_key_fingerprint(raw).unwrap(), None);
}

#[test]
fn short_fpr_record_is_protocol_mismatch() {
    let raw = "pub:u:255:22:AAAA:\nfpr:short\n";
    assert_eq!(created_key_fingerprint(raw), Err(CatalogError::ProtocolMismatch));
}
