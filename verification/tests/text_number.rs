use rosu_map::number::{int_to_chars, parse_i32, parse_num_i32, parse_u8, ParseNumberError};
use rosu_map::text::{
    clean_filename_str, split_key_value, split_str, to_standardized_path, trim_comment_str,
    trim_str,
};

#[test]
fn numbers() {
    assert_eq!(parse_i32("-2147483648"), Some(i32::MIN));
    assert_eq!(parse_i32("+7"), Some(7));
    assert_eq!(parse_i32(" 7"), None);
    assert_eq!(parse_i32("2147483648"), None);
    assert_eq!(parse_u8("255"), Some(255));
    assert_eq!(parse_u8("256"), None);
    assert_eq!(parse_u8("-1"), None);
    assert_eq!(parse_num_i32("  42 "), Ok(42));
    assert_eq!(parse_num_i32("2147483647"), Ok(i32::MAX));
    assert_eq!(parse_num_i32("-2147483647"), Ok(-2147483647));
    assert_eq!(parse_num_i32("-2147483648"), Err(ParseNumberError::NumberUnderflow));
    assert_eq!(parse_num_i32("1e3"), Err(ParseNumberError::InvalidInteger));
    let text: String = int_to_chars(-1024).into_iter().collect();
    assert_eq!(text, "-1024");
    let text: String = int_to_chars(0).into_iter().collect();
    assert_eq!(text, "0");
}

#[test]
fn text_helpers() {
    assert_eq!(trim_str(" \t a b \u{3000}"), "a b");
    assert_eq!(trim_comment_str("value  // comment"), "value");
    assert_eq!(trim_comment_str("no comment"), "no comment");
    assert_eq!(split_key_value(" Key : a:b "), ("Key", "a:b"));
    assert_eq!(split_key_value("Key"), ("Key", ""));
    assert_eq!(split_str("a,,b", ','), vec!["a", "", "b"]);
    assert_eq!(split_str("", ','), vec![""]);
    assert_eq!(to_standardized_path("a\\b\\c"), "a/b/c");
    assert_eq!(clean_filename_str("\"dir\\\\file.png\""), "dir/file.png");
}
