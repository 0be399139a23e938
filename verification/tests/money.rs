use dybudget::money::{format_amount, format_signed_amount, parse_amount, parse_magnitude, MAX_AMOUNT};
use dybudget::text::{is_space_char, trim};

#[test]
fn parse_reads_two_fraction_digits() {
    assert_eq!(parse_amount("3.50"), Some(350));
    assert_eq!(parse_amount("12.50"), Some(1250));
    assert_eq!(parse_amount("119.46"), Some(11946));
}

#[test]
fn parse_scales_short_fractions() {
    assert_eq!(parse_amount("12"), Some(1200));
    assert_eq!(parse_amount("12.5"), Some(1250));
    assert_eq!(parse_amount("5."), Some(500));
    assert_eq!(parse_amount(".5"), Some(50));
    assert_eq!(parse_amount(".05"), Some(5));
    assert_eq!(parse_amount("0"), Some(0));
    assert_eq!(parse_amount("0007"), Some(700));
}

#[test]
fn parse_reads_signs() {
    assert_eq!(parse_amount("-5"), Some(-500));
    assert_eq!(parse_amount("+7.25"), Some(725));
    assert_eq!(parse_amount("-0.01"), Some(-1));
    assert_eq!(parse_amount("-0"), Some(0));
}

#[test]
fn parse_turns_down_what_is_no_numeral() {
    assert_eq!(parse_amount(""), None);
    assert_eq!(parse_amount("."), None);
    assert_eq!(parse_amount("-"), None);
    assert_eq!(parse_amount("+"), None);
    assert_eq!(parse_amount("-."), None);
    assert_eq!(parse_amount("abc"), None);
    assert_eq!(parse_amount("1e3"), None);
    assert_eq!(parse_amount("1.2.3"), None);
    assert_eq!(parse_amount("1..2"), None);
    assert_eq!(parse_amount("--1"), None);
    assert_eq!(parse_amount("1-"), None);
    assert_eq!(parse_amount(" 1"), None);
    assert_eq!(parse_amount("1 "), None);
    assert_eq!(parse_amount("1,5"), None);
    assert_eq!(parse_amount("\u{0663}"), None);
}

#[test]
fn parse_turns_down_a_third_fraction_digit() {
    assert_eq!(parse_amount("1.234"), None);
    assert_eq!(parse_amount("1.000"), None);
    assert_eq!(parse_amount(".123"), None);
}

#[test]
fn parse_keeps_to_the_largest_amount() {
    assert_eq!(MAX_AMOUNT, i64::MAX);
    assert_eq!(parse_amount("92233720368547758.07"), Some(i64::MAX));
    assert_eq!(parse_amount("-92233720368547758.07"), Some(-i64::MAX));
    assert_eq!(parse_amount("92233720368547758.08"), None);
    assert_eq!(parse_amount("-92233720368547758.08"), None);
    assert_eq!(parse_amount("92233720368547758.1"), None);
    assert_eq!(parse_amount("92233720368547759"), None);
    assert_eq!(parse_amount("92233720368547758"), Some(9223372036854775800));
    assert_eq!(parse_amount("99999999999999999999999999999999999999"), None);
    assert_eq!(parse_amount("99999999999999999999999999999999999999x"), None);
    assert_eq!(
        parse_amount("000000000000000000000000000000000000000000001.5"),
        Some(150)
    );
}

#[test]
fn parse_magnitude_takes_no_sign() {
    assert_eq!(parse_magnitude("3.50"), Some(350));
    assert_eq!(parse_magnitude("-3.50"), None);
    assert_eq!(parse_magnitude("+3.50"), None);
    assert_eq!(parse_magnitude(""), None);
}

#[test]
fn format_writes_two_fraction_digits() {
    assert_eq!(format_amount(0), "0.00");
    assert_eq!(format_amount(5), "0.05");
    assert_eq!(format_amount(50), "0.50");
    assert_eq!(format_amount(350), "3.50");
    assert_eq!(format_amount(250000), "2500.00");
    assert_eq!(format_amount(-11946), "-119.46");
    assert_eq!(format_amount(-1), "-0.01");
    assert_eq!(format_amount(1234567890), "12345678.90");
}

#[test]
fn format_reaches_the_ends_of_the_range() {
    assert_eq!(
        format_amount(i128::MAX),
        "1701411834604692317316873037158841057.27"
    );
    assert_eq!(
        format_amount(i128::MIN),
        "-1701411834604692317316873037158841057.28"
    );
}

#[test]
fn format_signed_always_writes_the_sign() {
    assert_eq!(format_signed_amount(0), "+0.00");
    assert_eq!(format_signed_amount(350), "+3.50");
    assert_eq!(format_signed_amount(-78846), "-788.46");
}

#[test]
fn formatted_amounts_parse_back() {
    for v in [0i64, 1, -1, 99, 100, -100, 101, 350, -11946, 250000, i64::MAX, -i64::MAX] {
        assert_eq!(parse_amount(&format_amount(v as i128)), Some(v));
    }
}

#[test]
fn trim_drops_whitespace_at_both_ends() {
    assert_eq!(trim("  a b \t\n"), "a b");
    assert_eq!(trim("Coffee"), "Coffee");
    assert_eq!(trim(""), "");
    assert_eq!(trim(" \t\r\n"), "");
    assert_eq!(trim("\u{3000}x\u{a0}\u{2003}"), "x");
    assert_eq!(trim("\u{200b}x"), "\u{200b}x");
    assert_eq!(trim(" é "), "é");
}

#[test]
fn trim_agrees_with_the_standard_library() {
    for s in ["", " ", "a", " a", "a ", "  a  b  ", "\u{85}a\u{1680}", "\u{2028}\u{2029}", "\u{feff}a", "\u{180e}a", "\u{1c}a\u{1f}"] {
        assert_eq!(trim(s), s.trim());
    }
}

#[test]
fn whitespace_is_what_the_standard_library_calls_so() {
    let mut u: u32 = 0;
    while u <= 0x3100 {
        if let Some(c) = char::from_u32(u) {
            assert_eq!(is_space_char(c), c.is_whitespace());
        }
        u += 1;
    }
}
