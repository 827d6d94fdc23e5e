use pipy_rs::codec::{contains_name, format_u64, normalize_name, parse_listing, parse_version};

#[test]
fn normalize_strips_one_leading_slash() {
    assert_eq!(normalize_name("/hello"), "hello");
    assert_eq!(normalize_name("hello"), "hello");
    assert_eq!(normalize_name("//hello"), "/hello");
    assert_eq!(normalize_name(""), "");
    assert_eq!(normalize_name("/"), "");
}

#[test]
fn listing_empty_body_is_empty_set() {
    let names = parse_listing("");
    assert!(names.is_empty());
}

#[test]
fn listing_parses_slash_prefixed_names() {
    let names = parse_listing("/hello\n/world");
    assert_eq!(names, vec!["hello".to_string(), "world".to_string()]);
}

#[test]
fn listing_tolerates_bare_names_and_blank_lines() {
    let names = parse_listing("hello\n\n/world\n");
    assert_eq!(names, vec!["hello".to_string(), "world".to_string()]);
}

#[test]
fn membership_compares_canonical_forms() {
    let listing = vec!["hello".to_string()];
    assert!(contains_name(&listing, "hello"));
    assert!(contains_name(&listing, "/hello"));
    assert!(!contains_name(&listing, "world"));
    let slashed = vec!["/hello".to_string()];
    assert!(contains_name(&slashed, "hello"));
    assert!(contains_name(&slashed, "/hello"));
}

#[test]
fn version_parses_decimal_digits_exactly() {
    assert_eq!(parse_version("0"), Some(0));
    assert_eq!(parse_version("42"), Some(42));
    assert_eq!(parse_version("007"), Some(7));
    assert_eq!(parse_version(""), None);
    assert_eq!(parse_version("1a"), None);
    assert_eq!(parse_version("-1"), None);
    assert_eq!(parse_version("0.1"), None);
}

#[test]
fn version_parse_respects_the_machine_limit() {
    assert_eq!(parse_version("18446744073709551615"), Some(u64::MAX));
    assert_eq!(parse_version("18446744073709551616"), None);
}

#[test]
fn formatting_renders_decimal() {
    assert_eq!(format_u64(0), "0");
    assert_eq!(format_u64(7), "7");
    assert_eq!(format_u64(6060), "6060");
    assert_eq!(format_u64(18446744073709551615), "18446744073709551615");
}

#[test]
fn format_and_parse_round_trip() {
    for v in [0u64, 1, 9, 10, 6060, 123456789] {
        assert_eq!(parse_version(&format_u64(v)), Some(v));
    }
}
