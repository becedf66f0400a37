use gpg_ssh_keys::copy_id::filter_copy_id_args;

fn strings(items: &[&str]) -> Vec<String> {
    items.iter().map(|s| s.to_string()).collect()
}

#[test]
fn plain_arguments_pass_through() {
    let (kept, skipped) = filter_copy_id_args(&strings(&["-p", "2222", "user@host"]));
    assert_eq!(kept, strings(&["-p", "2222", "user@host"]));
    assert!(skipped.is_empty());
}

#[test]
fn identity_flag_and_its_value_are_set_aside() {
    let (kept, skipped) = filter_copy_id_args(&strings(&["-i", "mykey.pub", "user@host"]));
    assert_eq!(kept, strings(&["user@host"]));
    assert_eq!(skipped, strings(&["-i", "mykey.pub"]));
}

#[test]
fn only_the_value_after_the_first_identity_flag_is_set_aside() {
    let (kept, skipped) = filter_copy_id_args(&strings(&["a", "-i", "b", "-i", "c"]));
    assert_eq!(kept, strings(&["a", "c"]));
    assert_eq!(skipped, strings(&["-i", "b", "-i"]));
}
