use gpg_ssh_keys::arguments::{get_args, ArgsError, LogLevel, SubCommands};

fn strings(items: &[&str]) -> Vec<String> {
    items.iter().map(|s| s.to_string()).collect()
}

#[test]
fn list_with_defaults() {
    let m = get_args(&strings(&["--ssh-auth-sock", "/run/agent.ssh", "list"])).unwrap();
    assert_eq!(m.log_level, LogLevel::Info);
    assert_eq!(m.ssh_auth_sock, "/run/agent.ssh");
    match m.sub_commands {
        SubCommands::List(a) => assert!(!a.include_key_id),
        _ => panic!("expected the list subcommand"),
    }
}

#[test]
fn list_with_key_ids() {
    let m = get_args(&strings(&["--ssh-auth-sock", "/s", "list", "--include-key-id"])).unwrap();
    match m.sub_commands {
        SubCommands::List(a) => assert!(a.include_key_id),
        _ => panic!("expected the list subcommand"),
    }
}

#[test]
fn log_level_is_case_insensitive() {
    let m = get_args(&strings(&["--log-level", "DEBUG", "--ssh-auth-sock", "/s", "list"]))
        .unwrap();
    assert_eq!(m.log_level, LogLevel::Debug);
}

#[test]
fn unknown_log_level_is_rejected() {
    let r = get_args(&strings(&["--log-level", "loud", "--ssh-auth-sock", "/s", "list"]));
    assert_eq!(r.err(), Some(ArgsError::InvalidLogLevel));
}

#[test]
fn option_without_value_is_rejected() {
    let r = get_args(&strings(&["--ssh-auth-sock"]));
    assert_eq!(r.err(), Some(ArgsError::MissingValue));
}

#[test]
fn socket_is_required() {
    let r = get_args(&strings(&["list"]));
    assert_eq!(r.err(), Some(ArgsError::MissingSshAuthSock));
}

#[test]
fn subcommand_is_required() {
    let r = get_args(&strings(&["--ssh-auth-sock", "/s"]));
    assert_eq!(r.err(), Some(ArgsError::MissingSubCommand));
}

#[test]
fn unknown_subcommand_is_rejected() {
    let r = get_args(&strings(&["--ssh-auth-sock", "/s", "frobnicate"]));
    assert_eq!(r.err(), Some(ArgsError::UnknownSubCommand));
}

#[test]
fn unknown_option_is_rejected() {
    let r = get_args(&strings(&["--ssh-auth-sock", "/s", "list", "--frob"]));
    assert_eq!(r.err(), Some(ArgsError::UnknownOption));
}

#[test]
fn create_requires_name_and_email() {
    let r = get_args(&strings(&["--ssh-auth-sock", "/s", "create", "--email", "a@x"]));
    assert_eq!(r.err(), Some(ArgsError::MissingName));
    let r = get_args(&strings(&["--ssh-auth-sock", "/s", "create", "--name", "Alice"]));
    assert_eq!(r.err(), Some(ArgsError::MissingEmail));
    let m = get_args(&strings(&[
        "--ssh-auth-sock", "/s", "create", "--name", "Alice", "--email", "a@x",
    ]))
        .unwrap();
    match m.sub_commands {
        SubCommands::Create(a) => {
            assert_eq!(a.name, "Alice");
            assert_eq!(a.email, "a@x");
        },
        _ => panic!("expected the create subcommand"),
    }
}

#[test]
fn toggle_disable_all_flag() {
    let m = get_args(&strings(&["--ssh-auth-sock", "/s", "toggle", "--disable-all"])).unwrap();
    match m.sub_commands {
        SubCommands::Toggle(a) => assert!(a.disable_all),
        _ => panic!("expected the toggle subcommand"),
    }
}

#[test]
fn copy_id_needs_arguments() {
    let r = get_args(&strings(&["--ssh-auth-sock", "/s", "copy-id"]));
    assert_eq!(r.err(), Some(ArgsError::MissingCopyIdArgs));
}

#[test]
fn copy_id_splits_tokens_on_spaces() {
    let m = get_args(&strings(&[
        "--ssh-auth-sock", "/s", "copy-id", "-p 2222", "user@host", "--keep-temp-files",
    ]))
        .unwrap();
    match m.sub_commands {
        SubCommands::CopyId(a) => {
            assert_eq!(a.args, strings(&["-p", "2222", "user@host"]));
            assert!(a.keep_temp_files);
        },
        _ => panic!("expected the copy-id subcommand"),
    }
}

#[test]
fn public_key_lookup_value_is_validated_and_normalized() {
    let m = get_args(&strings(&["--ssh-auth-sock", "/s", "public-key"])).unwrap();
    match m.sub_commands {
        SubCommands::PublicKey(a) => assert_eq!(a.lookup_hex, None),
        _ => panic!("expected the public-key subcommand"),
    }
    let m = get_args(&strings(&[
        "--ssh-auth-sock", "/s", "public-key", "--lookup-hex", "0xabcdef01",
    ]))
        .unwrap();
    match m.sub_commands {
        SubCommands::PublicKey(a) => assert_eq!(a.lookup_hex, Some("ABCDEF01".to_string())),
        _ => panic!("expected the public-key subcommand"),
    }
    let r = get_args(&strings(&[
        "--ssh-auth-sock", "/s", "public-key", "--lookup-hex", "xyz",
    ]));
    assert_eq!(r.err(), Some(ArgsError::InvalidLookupHex));
}

#[test]
fn later_global_values_win() {
    let m = get_args(&strings(&[
        "--ssh-auth-sock", "/a", "--log-level", "warn", "--ssh-auth-sock", "/b", "list",
    ]))
        .unwrap();
    assert_eq!(m.log_level, LogLevel::Warn);
    assert_eq!(m.ssh_auth_sock, "/b");
}
