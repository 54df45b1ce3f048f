//! The string toolkit, on concrete values.

use libtabun::multipart::multipart_body;
use libtabun::text::{
    join_with_commas, nth_segment, parse_i32, parse_u32, parse_u64, split_all_exec, str_trim,
    trailing_digits_exec, u32_to_dec, u64_to_dec, without_char,
};
use libtabun::utils::find_substring;

#[test]
fn find_substring_between_first_pieces() {
    let result = find_substring("<a><b>c</b><b>d</b></a>", "<b>", false, "</b>", false, false);
    assert_eq!(result, Some("c".to_string()));
}

#[test]
fn find_substring_extended_to_last_end() {
    let result = find_substring("<a><b>c</b><b>d</b></a>", "<b>", true, "</b>", true, true);
    assert_eq!(result, Some("<b>c</b><b>d</b>".to_string()));
}

#[test]
fn find_substring_missing_end_is_none() {
    let result = find_substring("<a><b>c</b><b>d</b></a>", "<b>", true, "not-exist", true, true);
    assert_eq!(result, None);
}

#[test]
fn numbers_parse_like_the_standard_parser() {
    assert_eq!(parse_u32("001"), Some(1));
    assert_eq!(parse_u32("4294967295"), Some(4294967295));
    assert_eq!(parse_u32("4294967296"), None);
    assert_eq!(parse_u32(""), None);
    assert_eq!(parse_u32("12a"), None);
    assert_eq!(parse_u64("+7"), Some(7));
    assert_eq!(parse_u64("18446744073709551615"), Some(u64::MAX));
    assert_eq!(parse_u64("18446744073709551616"), None);
    assert_eq!(parse_i32("-5"), Some(-5));
    assert_eq!(parse_i32("+5"), Some(5));
    assert_eq!(parse_i32("-2147483648"), Some(i32::MIN));
    assert_eq!(parse_i32("-2147483649"), None);
    assert_eq!(parse_i32("--5"), None);
}

#[test]
fn numbers_render_in_decimal() {
    assert_eq!(u32_to_dec(0), "0");
    assert_eq!(u32_to_dec(15558), "15558");
    assert_eq!(u64_to_dec(18446744073709551615), "18446744073709551615");
}

#[test]
fn segments_split_like_the_standard_splitter() {
    assert_eq!(nth_segment("vote_area_comment_3927613", '_', 3), Some("3927613"));
    assert_eq!(nth_segment("a__b", '_', 1), Some(""));
    assert_eq!(nth_segment("a_b", '_', 5), None);
    let pieces = split_all_exec("one,two,,three", ',');
    assert_eq!(pieces, vec!["one", "two", "", "three"]);
    let one = split_all_exec("alone", ',');
    assert_eq!(one, vec!["alone"]);
}

#[test]
fn joining_puts_a_comma_ahead_of_each_piece() {
    let tags = vec!["one".to_string(), "two".to_string()];
    assert_eq!(join_with_commas(&tags), ",one,two");
    assert_eq!(join_with_commas(&Vec::new()), "");
}

#[test]
fn trimming_and_stripping() {
    assert_eq!(str_trim("  body \r\n"), "body");
    assert_eq!(str_trim("\t\n"), "");
    assert_eq!(trailing_digits_exec("vote_item_blog_15558"), "15558");
    assert_eq!(trailing_digits_exec("no digits"), "");
    assert_eq!(without_char("Родился:", ':'), "Родился");
    assert_eq!(without_char("10)", ')'), "10");
}

#[test]
fn multipart_body_is_the_exact_framing() {
    let fields = vec![("a".to_string(), "1".to_string())];
    let body = multipart_body("XYZ", &fields);
    assert_eq!(
        body,
        "--XYZ\r\nContent-Disposition: form-data; name=\"a\"\r\n\r\n1\r\n--XYZ--\r\n"
    );
}
