use whip::extensions::MyStringExtensions;

#[test]
fn test_remove_newline() {
    let s = String::from("test\n");
    assert_eq!(s.remove_newline(), "test");
}

#[test]
fn test_check_utf16() {
    let s = String::from("\u{feff}test");
    assert_eq!(s.check_utf16(), "test");
}

#[test]
fn test_create_string_from_str() {
    let s = String::create_string_from_str("test");
    assert_eq!(s, "test");
}

#[test]
fn test_create_string_from_str_with_null() {
    let s = String::create_string_from_str("test\0");
    assert_eq!(s, "test");
}

#[test]
fn remove_newline_drops_every_break() {
    let s = String::from("\r\nqu\ri\nt\r\n");
    assert_eq!(s.remove_newline(), "quit");
    assert_eq!(s.remove_newline().remove_newline(), "quit");
}

#[test]
fn check_utf16_drops_every_mark() {
    let s = String::from("a\u{feff}b\u{feff}\u{feff}c");
    assert_eq!(s.check_utf16(), "abc");
    assert_eq!(String::new().check_utf16(), "");
}

#[test]
fn create_string_stops_at_first_nul() {
    assert_eq!(String::create_string_from_str("ab\0cd\0"), "ab");
    assert_eq!(String::create_string_from_str("\0ab"), "");
    assert_eq!(String::create_string_from_str(""), "");
    assert_eq!(String::create_string_from_str("żółw"), "żółw");
}
