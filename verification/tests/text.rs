use euoni_converter::text::{
    compare_text, format_decimal, parse_unsigned, str_eq, to_ascii_lowercase, trim, TextOrder,
};

#[test]
fn trimming_removes_unicode_white_space_at_both_ends() {
    assert_eq!(trim("  png \n"), "png");
    assert_eq!(trim("\u{3000}a b\u{2009}"), "a b");
    assert_eq!(trim(" \t "), "");
    assert_eq!(trim(""), "");
    assert_eq!(trim("x"), "x");
}

#[test]
fn lowercase_maps_ascii_capitals_only() {
    assert_eq!(to_ascii_lowercase("JPEG"), "jpeg");
    assert_eq!(to_ascii_lowercase("Ünï-X9"), "Ünï-x9");
}

#[test]
fn numbers_parse_like_from_str() {
    assert_eq!(parse_unsigned("65535", 65535), Some(65535));
    assert_eq!(parse_unsigned("65536", 65535), None);
    assert_eq!(parse_unsigned("+12", 100), Some(12));
    assert_eq!(parse_unsigned("0012", 100), Some(12));
    assert_eq!(parse_unsigned("", 100), None);
    assert_eq!(parse_unsigned("+", 100), None);
    assert_eq!(parse_unsigned("-0", 100), None);
    assert_eq!(parse_unsigned("1_0", 100), None);
    assert_eq!(parse_unsigned("18446744073709551615", u64::MAX), Some(u64::MAX));
    assert_eq!(parse_unsigned("18446744073709551616", u64::MAX), None);
    assert_eq!(parse_unsigned("999x", 10), None);
}

#[test]
fn decimals_print_like_display() {
    assert_eq!(format_decimal(0), "0");
    assert_eq!(format_decimal(8080), "8080");
    assert_eq!(format_decimal(u64::MAX), u64::MAX.to_string());
}

#[test]
fn comparison_is_by_code_point() {
    assert_eq!(compare_text("aac", "avi"), TextOrder::Before);
    assert_eq!(compare_text("mp4", "mp3"), TextOrder::After);
    assert_eq!(compare_text("jp", "jpg"), TextOrder::Before);
    assert_eq!(compare_text("png", "png"), TextOrder::Same);
    assert!(str_eq("é", "é"));
    assert!(!str_eq("a", "ab"));
}
