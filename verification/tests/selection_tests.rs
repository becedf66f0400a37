use gpg_ssh_keys::catalog::SshKeyInfo;
use gpg_ssh_keys::records::{
    get_column, get_fingerprint_of_key, get_keygrip, get_name, get_type, is_sub_auth_key,
};
use gpg_ssh_keys::selection::{
    enabled_entries, find_by_name, key_ids_for_names, keygrips_for_names, preselected_names,
};
use gpg_ssh_keys::strutil::trim_ascii;

fn strings(items: &[&str]) -> Vec<String> {
    items.iter().map(|s| s.to_string()).collect()
}

fn catalog() -> Vec<SshKeyInfo> {
    vec![
        SshKeyInfo::new("FPR1", "Alice <a@x>", "AUTHFPRAAAA1111", "GRIPA"),
        SshKeyInfo::new("FPR2", "Bob <b@x>", "AUTHFPRBBBB2222", "GRIPB"),
        SshKeyInfo::new("FPR3", "Carol <c@x>", "AUTHFPRCCCC3333", "GRIPC"),
    ]
}

#[test]
fn find_by_name_returns_the_first_hit() {
    let cat = catalog();
    assert_eq!(find_by_name(&cat, "Bob <b@x>"), Some(1));
    assert_eq!(find_by_name(&cat, "Mallory <m@x>"), None);
}

#[test]
fn keygrips_follow_the_chosen_names() {
    let cat = catalog();
    let names = strings(&["Carol <c@x>", "Alice <a@x>", "Mallory <m@x>"]);
    assert_eq!(keygrips_for_names(&cat, &names), strings(&["GRIPC", "GRIPA"]));
}

#[test]
fn key_ids_follow_the_chosen_names() {
    let cat = catalog();
    let names = strings(&["Bob <b@x>"]);
    assert_eq!(key_ids_for_names(&cat, &names), strings(&["FPR2"]));
}

#[test]
fn enabled_entries_keep_catalog_order() {
    let cat = catalog();
    let enabled = strings(&["GRIPC", "GRIPA"]);
    let picked = enabled_entries(&cat, &enabled);
    assert_eq!(picked.len(), 2);
    assert_eq!(picked[0].main_name, "Alice <a@x>");
    assert_eq!(picked[1].main_name, "Carol <c@x>");
}

#[test]
fn preselected_names_are_those_of_enabled_entries() {
    let cat = catalog();
    let enabled = strings(&["GRIPB"]);
    assert_eq!(preselected_names(&cat, &enabled), strings(&["Bob <b@x>"]));
}

#[test]
fn record_accessors_read_the_positional_fields() {
    let line = "sub:u:255:22:SUBID:::::::a:";
    assert_eq!(get_type(line), "sub");
    assert_eq!(get_column(line, 4), Some("SUBID".to_string()));
    assert_eq!(get_column(line, 40), None);
    assert!(is_sub_auth_key(line));
    assert!(!is_sub_auth_key("sub:u:255:22:SUBID:::::::s:"));
    assert!(is_sub_auth_key("sub:u:255:22:SUBID:::::::sa:"));
    assert!(!is_sub_auth_key("sub:short"));
    assert_eq!(get_fingerprint_of_key("fpr:::::::::ABCD:"), Some("ABCD".to_string()));
    assert_eq!(get_fingerprint_of_key("uid:::::::::Alice:"), None);
    assert_eq!(get_name("uid:::::::::Alice:"), Some("Alice".to_string()));
    assert_eq!(get_keygrip("grp:::::::::GRIP:"), Some("GRIP".to_string()));
}

#[test]
fn trim_strips_ascii_whitespace_at_both_ends() {
    assert_eq!(trim_ascii(" \t\r\n x y \n"), "x y");
    assert_eq!(trim_ascii(""), "");
    assert_eq!(trim_ascii(" \n "), "");
}
