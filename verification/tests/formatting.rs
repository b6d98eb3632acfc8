use brewlog::formatting::{format_date, format_month_anchor, format_month_heading, format_number};
use brewlog::text::{i64_text, parse_i64, parse_u32, trim_str, u64_text};

#[test]
fn small_numbers_are_plain() {
    assert_eq!(format_number(0), "0");
    assert_eq!(format_number(999), "999");
    assert_eq!(format_number(-5), "-5");
    assert_eq!(format_number(-123456), "-123456");
}

#[test]
fn large_numbers_get_separators() {
    assert_eq!(format_number(1000), "1,000");
    assert_eq!(format_number(12345), "12,345");
    assert_eq!(format_number(1234567), "1,234,567");
    assert_eq!(format_number(i64::MAX), "9,223,372,036,854,775,807");
}

#[test]
fn separators_can_be_removed_to_get_digits() {
    for n in [1000i64, 98765, 1000000, 42424242] {
        assert_eq!(format_number(n).replace(',', ""), n.to_string());
    }
}

#[test]
fn integer_text_matches_to_string() {
    for n in [0i64, 7, -7, 10, 99, 100, -1000, i64::MIN, i64::MAX] {
        assert_eq!(i64_text(n), n.to_string());
    }
    assert_eq!(u64_text(u64::MAX), u64::MAX.to_string());
}

#[test]
fn integer_parsing_matches_std() {
    let cases = ["0", "+12", "-12", "", "+", "-", "12a", " 1", "9223372036854775807",
        "9223372036854775808", "-9223372036854775808", "-9223372036854775809", "007"];
    for case in cases {
        let chars: Vec<char> = case.chars().collect();
        assert_eq!(parse_i64(&chars), case.parse::<i64>().ok(), "i64 {case:?}");
        assert_eq!(parse_u32(&chars), case.parse::<u32>().ok(), "u32 {case:?}");
    }
    let chars: Vec<char> = "4294967296".chars().collect();
    assert_eq!(parse_u32(&chars), None);
}

#[test]
fn trimming_matches_std() {
    for case in ["  hi  ", "\t\n x y \r", "", "   ", "\u{3000}full\u{a0}", "a"] {
        assert_eq!(trim_str(case), case.trim());
    }
}

#[test]
fn dates_are_written_by_chrono() {
    assert_eq!(format_date(0), "1970-01-01");
    assert_eq!(format_date(1_714_521_600), "2024-05-01");
    assert_eq!(format_month_anchor(1_714_521_600), "2024-05");
    assert_eq!(format_month_heading(1_714_521_600), "May 2024");
}
