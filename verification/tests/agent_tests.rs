use gpg_ssh_keys::agent::{get_enabled_keygrip, AgentError};

#[test]
fn reads_the_third_column_of_each_line() {
    let raw = "S KEYINFO GRIP1 D - - 1 P - - -\nS KEYINFO GRIP2 D - - - P - - -\nOK\n";
    let grips = get_enabled_keygrip(raw).unwrap();
    assert_eq!(grips, vec!["GRIP1".to_string(), "GRIP2".to_string()]);
}

#[test]
fn stops_at_the_ok_line() {
    let raw = "S KEYINFO GRIP1 D - - 1 P - - -\nOK\nS KEYINFO GRIP2 D - - 1 P - - -\n";
    let grips = get_enabled_keygrip(raw).unwrap();
    assert_eq!(grips, vec!["GRIP1".to_string()]);
}

#[test]
fn empty_output_is_an_empty_set() {
    assert_eq!(get_enabled_keygrip("").unwrap(), Vec::<String>::new());
    assert_eq!(get_enabled_keygrip("OK\n").unwrap(), Vec::<String>::new());
}

#[test]
fn repeated_keygrips_are_reported_once() {
    let raw = "S KEYINFO GRIP1 D - - 1 P - - -\nS KEYINFO GRIP1 D - - 1 P - - -\nOK\n";
    let grips = get_enabled_keygrip(raw).unwrap();
    assert_eq!(grips, vec!["GRIP1".to_string()]);
}

#[test]
fn a_short_line_is_malformed() {
    let raw = "S KEYINFO\nOK\n";
    assert_eq!(get_enabled_keygrip(raw), Err(AgentError::MalformedLine));
}

#[test]
fn carriage_returns_are_stripped() {
    let raw = "S KEYINFO GRIP1 D - - 1 P - - -\r\nOK\r\n";
    let grips = get_enabled_keygrip(raw).unwrap();
    assert_eq!(grips, vec!["GRIP1".to_string()]);
}
