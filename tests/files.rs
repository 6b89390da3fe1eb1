use nbody::files::file_check;

#[test]
fn file_check_finds_the_root_directory() {
    assert!(file_check(&String::from("/")));
}

#[test]
fn file_check_rejects_a_missing_path() {
    assert!(!file_check(&String::from("no/such/dir/initial_conditions.ini")));
}
