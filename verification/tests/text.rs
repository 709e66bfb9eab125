use sivasbus::text::{digit_text, i32_text, is_white_space_char, parse_i32, trim_owned};

#[test]
fn whitespace_is_the_unicode_property() {
    let mut code: u32 = 0;
    while code <= 0x10FFFF {
        if let Some(c) = char::from_u32(code) {
            assert_eq!(is_white_space_char(c), c.is_whitespace(), "U+{:04X}", code);
        }
        code += 1;
    }
}

#[test]
fn trimming_removes_both_ends_only() {
    assert_eq!(trim_owned(" Test Stop "), "Test Stop");
    assert_eq!(trim_owned("\t\r\n a  b \u{a0}\u{2003}"), "a  b");
    assert_eq!(trim_owned("plain"), "plain");
    assert_eq!(trim_owned("   "), "");
    assert_eq!(trim_owned(""), "");
    assert_eq!(trim_owned("\u{200b}x"), "\u{200b}x");
    for sample in [" a", "a ", " a ", "\u{3000}ş\u{85}", "a\u{1680}b", "\n"] {
        assert_eq!(trim_owned(sample), sample.trim());
    }
}

#[test]
fn integers_are_read_as_the_standard_parser_reads_them() {
    assert_eq!(parse_i32("42"), Some(42));
    assert_eq!(parse_i32("-42"), Some(-42));
    assert_eq!(parse_i32("+42"), Some(42));
    assert_eq!(parse_i32("0042"), Some(42));
    assert_eq!(parse_i32("-0"), Some(0));
    assert_eq!(parse_i32("2147483647"), Some(i32::MAX));
    assert_eq!(parse_i32("-2147483648"), Some(i32::MIN));
    assert_eq!(parse_i32("2147483648"), None);
    assert_eq!(parse_i32("-2147483649"), None);
    assert_eq!(parse_i32("99999999999999999999999999"), None);
    assert_eq!(parse_i32(""), None);
    assert_eq!(parse_i32("+"), None);
    assert_eq!(parse_i32("-"), None);
    assert_eq!(parse_i32("4 2"), None);
    assert_eq!(parse_i32(" 42"), None);
    assert_eq!(parse_i32("42abc"), None);
    assert_eq!(parse_i32("--4"), None);
    assert_eq!(parse_i32("٤٢"), None);
    for sample in ["7", "-7", "+0", "00", "1_0", "0x1", "4294967296", "-00000000000000000001"] {
        assert_eq!(parse_i32(sample), sample.parse::<i32>().ok(), "{:?}", sample);
    }
}

#[test]
fn integers_are_written_in_decimal() {
    assert_eq!(i32_text(0), "0");
    assert_eq!(i32_text(7), "7");
    assert_eq!(i32_text(10), "10");
    assert_eq!(i32_text(-1), "-1");
    assert_eq!(i32_text(1000), "1000");
    assert_eq!(i32_text(i32::MAX), "2147483647");
    assert_eq!(i32_text(i32::MIN), "-2147483648");
    for n in [9, 11, 99, 100, 101, -10, -99, 123456789] {
        assert_eq!(i32_text(n), n.to_string());
        assert_eq!(parse_i32(&i32_text(n)), Some(n));
    }
}

#[test]
fn digits_are_written_one_by_one() {
    assert_eq!(digit_text(0), "0");
    assert_eq!(digit_text(5), "5");
    assert_eq!(digit_text(9), "9");
}
