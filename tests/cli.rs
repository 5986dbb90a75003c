use tarsmith::cli::{parse_args, Request, UsageError};

fn args(a: &[&str]) -> Vec<String> {
    a.iter().map(|s| s.to_string()).collect()
}

#[test]
fn install_with_flags() {
    match parse_args(&args(&["app.tar.gz", "--user", "-nd", "--no-path"])).unwrap() {
        Request::Install(o) => {
            assert_eq!(o.archive, "app.tar.gz");
            assert_eq!(o.user_level, Some(true));
            assert!(o.no_desktop);
            assert!(o.no_path);
        }
        _ => panic!("expected an install"),
    }
    match parse_args(&args(&["-s", "app.tar.gz"])).unwrap() {
        Request::Install(o) => {
            assert_eq!(o.user_level, Some(false));
            assert!(!o.no_desktop);
        }
        _ => panic!("expected an install"),
    }
}

#[test]
fn version_and_help() {
    assert!(matches!(parse_args(&args(&["--version"])), Ok(Request::Version)));
    assert!(matches!(parse_args(&args(&["x.tar", "-h"])), Ok(Request::Help)));
    assert!(matches!(parse_args(&args(&["-V", "--bogus"])), Ok(Request::Version)));
}

#[test]
fn usage_errors() {
    assert_eq!(parse_args(&args(&[])).unwrap_err(), UsageError::MissingArchive);
    assert_eq!(parse_args(&args(&["--user"])).unwrap_err(), UsageError::MissingArchive);
    assert_eq!(parse_args(&args(&["a.tar", "-u", "-s"])).unwrap_err(), UsageError::ConflictingScope);
    assert_eq!(parse_args(&args(&["a.tar", "b.tar"])).unwrap_err(), UsageError::MultipleArchives);
    assert_eq!(parse_args(&args(&["a.tar", "-x"])).unwrap_err(), UsageError::MultipleArchives);
    assert_eq!(
        parse_args(&args(&["--frobnicate", "a.tar"])).unwrap_err(),
        UsageError::UnknownOption("--frobnicate".to_string())
    );
    assert!(matches!(parse_args(&args(&["--bogus", "--version"])), Err(UsageError::UnknownOption(_))));
}
