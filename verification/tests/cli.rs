use winkey::cli::{parse_args, str_eq, ArgsExit, EXIT_SUCCESS, EXIT_USAGE};

fn args(list: &[&str]) -> Vec<String> {
    list.iter().map(|s| s.to_string()).collect()
}

#[test]
fn no_arguments_reads_firmware_quietly() {
    let a = parse_args(&args(&[])).unwrap();
    assert!(!a.verbose);
    assert!(a.file_path.is_none());
}

#[test]
fn verbose_and_file() {
    let a = parse_args(&args(&["-v", "--file", "dump.bin"])).unwrap();
    assert!(a.verbose);
    assert_eq!(a.file_path.as_deref(), Some("dump.bin"));
    let b = parse_args(&args(&["-f", "a.bin", "--verbose", "-f", "b.bin"])).unwrap();
    assert!(b.verbose);
    assert_eq!(b.file_path.as_deref(), Some("b.bin"));
}

#[test]
fn file_without_path() {
    let e = parse_args(&args(&["-v", "-f"])).unwrap_err();
    assert!(matches!(e, ArgsExit::MissingFilePath));
    assert_eq!(e.exit_code(), EXIT_USAGE);
}

#[test]
fn help_and_version_stop_with_success() {
    let e = parse_args(&args(&["-h", "--bogus"])).unwrap_err();
    assert!(matches!(e, ArgsExit::Help));
    assert_eq!(e.exit_code(), EXIT_SUCCESS);
    let e = parse_args(&args(&["--version"])).unwrap_err();
    assert!(matches!(e, ArgsExit::Version));
    assert_eq!(e.exit_code(), EXIT_SUCCESS);
}

#[test]
fn unknown_option() {
    let e = parse_args(&args(&["-v", "--bogus", "-h"])).unwrap_err();
    match e {
        ArgsExit::UnknownOption(o) => assert_eq!(o, "--bogus"),
        other => panic!("unexpected: {:?}", other),
    }
    assert_eq!(parse_args(&args(&["-x"])).unwrap_err().exit_code(), EXIT_USAGE);
}

#[test]
fn file_path_may_look_like_an_option() {
    let a = parse_args(&args(&["--file", "-h"])).unwrap();
    assert_eq!(a.file_path.as_deref(), Some("-h"));
}

#[test]
fn string_equality() {
    assert!(str_eq("-v", "-v"));
    assert!(!str_eq("-v", "-V"));
    assert!(!str_eq("-v", "-vv"));
    assert!(str_eq("", ""));
}
