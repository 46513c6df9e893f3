use nicotine::version_check::{is_newer_version, parse_version};

#[test]
fn test_parse_version() {
    assert_eq!(parse_version("0.2.1").unwrap(), (0, 2, 1));
    assert_eq!(parse_version("1.0.0").unwrap(), (1, 0, 0));
    assert_eq!(parse_version("10.20.30").unwrap(), (10, 20, 30));
}

#[test]
fn test_is_newer_version() {
    assert!(is_newer_version("0.2.2", "0.2.1").unwrap());
    assert!(is_newer_version("0.3.0", "0.2.9").unwrap());
    assert!(is_newer_version("1.0.0", "0.9.9").unwrap());

    assert!(!is_newer_version("0.2.1", "0.2.1").unwrap());
    assert!(!is_newer_version("0.2.0", "0.2.1").unwrap());
    assert!(!is_newer_version("0.1.9", "0.2.0").unwrap());
}