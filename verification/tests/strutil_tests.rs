use listup_law::strutil::{parse_u64, str_eq, str_le_exec, ws_trim};

#[test]
fn parses_decimal_numbers() {
    assert_eq!(parse_u64("0"), Some(0));
    assert_eq!(parse_u64("5"), Some(5));
    assert_eq!(parse_u64("2019"), Some(2019));
    assert_eq!(parse_u64("007"), Some(7));
    assert_eq!(parse_u64("18446744073709551615"), Some(u64::MAX));
}

#[test]
fn rejects_non_numbers() {
    assert_eq!(parse_u64(""), None);
    assert_eq!(parse_u64("12a"), None);
    assert_eq!(parse_u64("-3"), None);
    assert_eq!(parse_u64("+3"), None);
    assert_eq!(parse_u64(" 3"), None);
    assert_eq!(parse_u64("18446744073709551616"), None);
    assert_eq!(parse_u64("99999999999999999999999"), None);
}

#[test]
fn trims_markup_whitespace() {
    assert_eq!(ws_trim("  a b \t\r\n"), "a b");
    assert_eq!(ws_trim("\n\t "), "");
    assert_eq!(ws_trim(""), "");
    assert_eq!(ws_trim("x"), "x");
}

#[test]
fn compares_strings() {
    assert!(str_eq("abc", "abc"));
    assert!(!str_eq("abc", "abd"));
    assert!(!str_eq("abc", "ab"));
    assert!(str_le_exec("", "a"));
    assert!(str_le_exec("a", "ab"));
    assert!(str_le_exec("aaa", "aab"));
    assert!(!str_le_exec("b", "aZ"));
    assert!(str_le_exec("abc", "abc"));
}
