use one_click_launch::text::{chars_of, has_prefix, has_suffix, i64_to_string, parse_i64};
use one_click_launch::utils::wide_string;

#[test]
fn chars_of_text() {
    assert_eq!(chars_of("a一b"), vec!['a', '一', 'b']);
    assert_eq!(chars_of(""), Vec::<char>::new());
    assert_eq!(chars_of("αβγ").len(), 3);
}

#[test]
fn prefixes_and_suffixes() {
    assert!(has_prefix("https://x", "http"));
    assert!(has_prefix("http", "http"));
    assert!(has_prefix("anything", ""));
    assert!(!has_prefix("htt", "http"));
    assert!(!has_prefix("xhttp", "http"));
    assert!(has_suffix("icon.ico", ".ico"));
    assert!(has_suffix(".ico", ".ico"));
    assert!(has_suffix("x", ""));
    assert!(!has_suffix("ico", ".ico"));
    assert!(!has_suffix("icon.icon", ".ico"));
    assert!(has_suffix("图标.ico", ".ico"));
}

#[test]
fn parse_i64_accepts_what_the_standard_parser_accepts() {
    let cases = [
        "0", "7", "-7", "+7", "007", "-0", "+0", "9223372036854775807", "-9223372036854775808",
        "9223372036854775808", "-9223372036854775809", "99999999999999999999999", "", "+", "-",
        "--1", "+-1", "1 ", " 1", "1a", "a", "1.0", "1e3", "0x10", "१", "1_000",
        "-000000000000000000000000001", "18446744073709551616",
    ];
    for text in cases {
        assert_eq!(parse_i64(text), text.parse::<i64>().ok());
    }
}

#[test]
fn parse_i64_exact_values() {
    assert_eq!(parse_i64("42"), Some(42));
    assert_eq!(parse_i64("-42"), Some(-42));
    assert_eq!(parse_i64("+42"), Some(42));
    assert_eq!(parse_i64("9223372036854775807"), Some(i64::MAX));
    assert_eq!(parse_i64("-9223372036854775808"), Some(i64::MIN));
    assert_eq!(parse_i64("9223372036854775808"), None);
    assert_eq!(parse_i64(""), None);
    assert_eq!(parse_i64("-"), None);
}

#[test]
fn i64_to_string_writes_decimal() {
    for n in [0i64, 1, 9, 10, 11, 99, 100, -1, -10, 1234567890, i64::MAX, i64::MIN, i64::MIN + 1] {
        assert_eq!(i64_to_string(n), n.to_string());
        assert_eq!(parse_i64(&i64_to_string(n)), Some(n));
    }
    assert_eq!(i64_to_string(-9223372036854775808), "-9223372036854775808");
}

#[test]
fn wide_string_is_utf16_with_closing_zero() {
    assert_eq!(wide_string(""), vec![0u16]);
    assert_eq!(wide_string("open"), vec![0x6F, 0x70, 0x65, 0x6E, 0]);
    assert_eq!(wide_string("一"), vec![0x4E00, 0]);
    assert_eq!(wide_string("😀"), vec![0xD83D, 0xDE00, 0]);
    assert_eq!(wide_string("\u{FFFF}\u{10000}\u{10FFFF}"), vec![0xFFFF, 0xD800, 0xDC00, 0xDBFF, 0xDFFF, 0]);
    for text in ["C:\\Users\\Silwings\\Downloads\\一封信.pdf", "a😀b", "https://www.baidu.com/"] {
        let mut expected: Vec<u16> = text.encode_utf16().collect();
        expected.push(0);
        assert_eq!(wide_string(text), expected);
    }
}
