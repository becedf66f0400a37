use gpg_ssh_keys::catalog::SshKeyInfo;
use gpg_ssh_keys::render::{list_line, no_match_message, public_key_details};

fn entry() -> SshKeyInfo {
    SshKeyInfo::new("FPR1", "Alice <a@x>", "AUTHFPR12345678", "GRIP1")
}

#[test]
fn list_line_with_and_without_key_id() {
    assert_eq!(list_line(&entry(), false), "Alice <a@x>");
    assert_eq!(list_line(&entry(), true), "FPR1 Alice <a@x>");
}

#[test]
fn public_key_details_are_labeled() {
    assert_eq!(
        public_key_details(&entry()),
        "Key: FPR1\nName: Alice <a@x>\n\
         Fingerprint (Auth Subkey): AUTHFPR12345678\nKeygrip (Auth Subkey): GRIP1",
    );
}

#[test]
fn no_match_message_names_the_hex_string() {
    assert_eq!(
        no_match_message("ABCDEF01"),
        "Did not find a match for the hex string: 0xABCDEF01",
    );
}
