use http_server::Config;

fn strings(args: &[&str]) -> Vec<String> {
    args.iter().map(|s| String::from(*s)).collect()
}

#[test]
fn directory_option_is_read() {
    let c = Config::from_args(strings(&["server", "--directory", "/tmp/files"])).unwrap();
    assert_eq!(c.directory, "/tmp/files");
}

#[test]
fn absent_option_yields_empty_root() {
    let c = Config::from_args(strings(&["server"])).unwrap();
    assert_eq!(c.directory, "");
    let c = Config::from_args(strings(&[])).unwrap();
    assert_eq!(c.directory, "");
}

#[test]
fn last_directory_option_wins() {
    let c = Config::from_args(strings(&["server", "--directory", "/a", "--directory", "/b"]))
        .unwrap();
    assert_eq!(c.directory, "/b");
}

#[test]
fn trailing_option_without_value_is_rejected() {
    assert!(Config::from_args(strings(&["server", "--directory"])).is_err());
    assert!(Config::from_args(strings(&["server", "--directory", "/a", "--directory"])).is_err());
}

#[test]
fn program_name_is_not_an_option() {
    // The first argument is the program name, even if it looks like the flag.
    let c = Config::from_args(strings(&["--directory"])).unwrap();
    assert_eq!(c.directory, "");
}
