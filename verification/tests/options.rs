use bios_trampoline::options::parse_options;

#[test]
fn empty_list_is_the_empty_set() {
    let s = parse_options("").unwrap();
    assert!(!s.contains("expand64"));
    let s = parse_options("   ").unwrap();
    assert!(!s.contains("expand64"));
}

#[test]
fn single_flag() {
    let s = parse_options("expand64").unwrap();
    assert!(s.contains("expand64"));
    assert!(!s.contains("expand_64"));
}

#[test]
fn several_flags_with_whitespace() {
    let s = parse_options(" a ,\tb,\nc ").unwrap();
    assert!(s.contains("a"));
    assert!(s.contains("b"));
    assert!(s.contains("c"));
    assert!(!s.contains("d"));
}

#[test]
fn duplicates_and_trailing_comma_are_accepted() {
    let s = parse_options("a, a, b,").unwrap();
    assert!(s.contains("a"));
    assert!(s.contains("b"));
}

#[test]
fn membership_is_exact_not_prefix() {
    let s = parse_options("expand64").unwrap();
    assert!(!s.contains("expand"));
    assert!(!s.contains("expand641"));
}

#[test]
fn malformed_lists_are_rejected() {
    assert!(parse_options(",").is_none());
    assert!(parse_options(",a").is_none());
    assert!(parse_options("a,,b").is_none());
    assert!(parse_options("a b").is_none());
    assert!(parse_options("9lives").is_none());
    assert!(parse_options("a-b").is_none());
    assert!(parse_options("a,b,,").is_none());
}

#[test]
fn underscore_names_are_identifiers() {
    let s = parse_options("_x, x_1").unwrap();
    assert!(s.contains("_x"));
    assert!(s.contains("x_1"));
}
