use hyper_router::normalize_pattern;

#[test]
fn regex_normalize_cases() {
    assert_eq!(normalize_pattern("/").unwrap(), "^/$");
    assert_eq!(normalize_pattern("/path/to").unwrap(), "^/path/to/?$");
    assert_eq!(normalize_pattern("/path/to/").unwrap(), "^/path/to/?$");
}

#[test]
fn router_normalize_cases() {
    assert_eq!(normalize_pattern("/").unwrap(), "^/$");
    assert_eq!(normalize_pattern("/path/to").unwrap(), "^/path/to/?$");
    assert_eq!(normalize_pattern("/path/to/").unwrap(), "^/path/to/?$");
}

#[test]
fn normalize_is_idempotent_on_samples() {
    for pattern in [
        "/",
        "/path/to",
        "/path/to/",
        "  /spaced  ",
        "^/anchored$",
        "/items/([^/]+)",
        "^$",
        "/a/?$",
        "//",
    ] {
        let once = normalize_pattern(pattern).unwrap();
        let twice = normalize_pattern(&once).unwrap();
        assert_eq!(twice, once);
    }
}

#[test]
fn normalize_rejects_unrooted_patterns() {
    assert!(normalize_pattern("a/b").is_err());
    assert!(normalize_pattern("").is_err());
    assert!(normalize_pattern("   ").is_err());
    assert!(normalize_pattern("$").is_err());
}

#[test]
fn normalize_trims_and_reanchors() {
    assert_eq!(normalize_pattern("  /x  ").unwrap(), "^/x/?$");
    assert_eq!(normalize_pattern("^/x$").unwrap(), "^/x/?$");
    assert_eq!(normalize_pattern("/x///").unwrap(), "^/x/?$");
    assert_eq!(normalize_pattern("^^/x$$").unwrap(), "^/x/?$");
    assert_eq!(normalize_pattern("^").unwrap(), "^/$");
    assert_eq!(normalize_pattern("/x/?$").unwrap(), "^/x/?$");
}

#[test]
fn normalize_trims_unicode_whitespace() {
    assert_eq!(normalize_pattern("\u{a0}/x\u{2003}").unwrap(), "^/x/?$");
    assert_eq!(normalize_pattern("\u{b}/y\r\n").unwrap(), "^/y/?$");
    assert_eq!(normalize_pattern("\u{3000}\u{2028}").is_err(), true);
}
