use pdsc::parse::{parse_hex_or_dec, ParseError};
use pdsc::text::{contains_char, contains_str, parse_bool, parse_uint};
use pdsc::xml::{str_eq, XmlElem};

#[test]
fn decimal_numbers_parse_as_from_str_does() {
    assert_eq!(parse_uint("0", 10, 255), Some(0));
    assert_eq!(parse_uint("255", 10, 255), Some(255));
    assert_eq!(parse_uint("+7", 10, 255), Some(7));
    assert_eq!(parse_uint("256", 10, 255), None);
    assert_eq!(parse_uint("", 10, 255), None);
    assert_eq!(parse_uint("+", 10, 255), None);
    assert_eq!(parse_uint("-1", 10, 255), None);
    assert_eq!(parse_uint("1a", 10, 255), None);
    assert_eq!(parse_uint(" 1", 10, 255), None);
    assert_eq!(parse_uint("18446744073709551615", 10, u64::MAX), Some(u64::MAX));
    assert_eq!(parse_uint("18446744073709551616", 10, u64::MAX), None);
}

#[test]
fn hexadecimal_numbers_parse_in_either_case() {
    assert_eq!(parse_uint("ff", 16, u64::MAX), Some(255));
    assert_eq!(parse_uint("FF", 16, u64::MAX), Some(255));
    assert_eq!(parse_uint("ffffffffffffffff", 16, u64::MAX), Some(u64::MAX));
    assert_eq!(parse_uint("10000000000000000", 16, u64::MAX), None);
    assert_eq!(parse_uint("g", 16, u64::MAX), None);
}

#[test]
fn addresses_are_hexadecimal_after_0x() {
    assert_eq!(parse_hex_or_dec("0x08000000"), Some(0x0800_0000));
    assert_eq!(parse_hex_or_dec("0x20000"), Some(0x20000));
    assert_eq!(parse_hex_or_dec("1024"), Some(1024));
    assert_eq!(parse_hex_or_dec("0x"), None);
    assert_eq!(parse_hex_or_dec("0X10"), None);
    assert_eq!(parse_hex_or_dec("10k"), None);
}

#[test]
fn booleans_are_true_or_false_exactly() {
    assert_eq!(parse_bool("true"), Some(true));
    assert_eq!(parse_bool("false"), Some(false));
    assert_eq!(parse_bool("True"), None);
    assert_eq!(parse_bool("1"), None);
    assert_eq!(parse_bool(""), None);
}

#[test]
fn substring_and_character_search() {
    assert!(contains_str("IROM1", "ROM"));
    assert!(contains_str("RAM", "RAM"));
    assert!(!contains_str("RA", "RAM"));
    assert!(contains_str("anything", ""));
    assert!(!contains_str("IRAM", "ROM"));
    assert!(contains_char("rwx", 'w'));
    assert!(!contains_char("rx", 'w'));
    assert!(str_eq("abc", "abc"));
    assert!(!str_eq("abc", "abd"));
}

#[test]
fn attribute_and_child_lookup_take_the_first_match() {
    let child = |name: &str, text: &str| XmlElem {
        name: name.to_string(),
        ns: None,
        attrs: Vec::new(),
        text: text.to_string(),
        children: Vec::new(),
    };
    let e = XmlElem {
        name: "root".to_string(),
        ns: None,
        attrs: vec![("a".to_string(), "1".to_string()), ("a".to_string(), "2".to_string())],
        text: String::new(),
        children: vec![child("x", "first"), child("y", "y"), child("x", "second")],
    };
    assert_eq!(e.attr("a").map(|s| s.as_str()), Some("1"));
    assert!(e.attr("b").is_none());
    assert_eq!(e.child("x").map(|c| c.text.as_str()), Some("first"));
    assert!(e.child("z").is_none());
    assert!(e.child_in_ns("x", "").is_none());
    match pdsc::parse::child_text(&e, "z", "root") {
        Err(ParseError::MissingChild { child, elem }) => {
            assert_eq!(child, "z");
            assert_eq!(elem, "root");
        }
        _ => panic!("expected a missing child"),
    }
}
