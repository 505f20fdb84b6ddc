use sazparser::text::{chars_of, decimal_width, find_char, pad_decimal, parse_decimal, push_decimal};

fn chars(s: &str) -> Vec<char> {
    s.chars().collect()
}

#[test]
fn chars_of_keeps_every_character() {
    assert_eq!(chars_of("raw/001_c.txt"), chars("raw/001_c.txt"));
    assert_eq!(chars_of(""), Vec::<char>::new());
    assert_eq!(chars_of("a\u{e9}\u{4e2d}\u{1f600}"), vec!['a', '\u{e9}', '\u{4e2d}', '\u{1f600}']);
}

#[test]
fn find_char_gives_first_position_in_window() {
    let s = chars("a/b/c_d");
    assert_eq!(find_char(&s, '/', 0, s.len()), 1);
    assert_eq!(find_char(&s, '/', 2, s.len()), 3);
    assert_eq!(find_char(&s, '_', 0, s.len()), 5);
    assert_eq!(find_char(&s, '/', 4, s.len()), s.len());
    assert_eq!(find_char(&s, '/', 0, 1), 1);
    assert_eq!(find_char(&s, 'x', 0, 0), 0);
}

#[test]
fn parse_decimal_reads_numerals() {
    assert_eq!(parse_decimal(&chars("0")), Some(0));
    assert_eq!(parse_decimal(&chars("7")), Some(7));
    assert_eq!(parse_decimal(&chars("007")), Some(7));
    assert_eq!(parse_decimal(&chars("1234")), Some(1234));
    assert_eq!(parse_decimal(&chars("4294967295")), Some(u32::MAX));
    assert_eq!(parse_decimal(&chars("0000000000000000000004294967295")), Some(u32::MAX));
}

#[test]
fn parse_decimal_refuses_what_is_no_numeral() {
    assert_eq!(parse_decimal(&chars("")), None);
    assert_eq!(parse_decimal(&chars("+5")), None);
    assert_eq!(parse_decimal(&chars("-5")), None);
    assert_eq!(parse_decimal(&chars(" 5")), None);
    assert_eq!(parse_decimal(&chars("5 ")), None);
    assert_eq!(parse_decimal(&chars("12a")), None);
    assert_eq!(parse_decimal(&chars("sub")), None);
    assert_eq!(parse_decimal(&chars("\u{663}")), None);
}

#[test]
fn parse_decimal_refuses_what_a_u32_cannot_hold() {
    assert_eq!(parse_decimal(&chars("4294967296")), None);
    assert_eq!(parse_decimal(&chars("4294967300")), None);
    assert_eq!(parse_decimal(&chars("99999999999")), None);
    assert_eq!(parse_decimal(&chars("42949672950")), None);
}

#[test]
fn decimal_width_counts_digits() {
    assert_eq!(decimal_width(0), 1);
    assert_eq!(decimal_width(9), 1);
    assert_eq!(decimal_width(10), 2);
    assert_eq!(decimal_width(999), 3);
    assert_eq!(decimal_width(1000), 4);
    assert_eq!(decimal_width(u32::MAX), 10);
}

#[test]
fn push_decimal_appends_the_digits() {
    let mut text = String::from("n=");
    push_decimal(&mut text, 0);
    assert_eq!(text, "n=0");
    push_decimal(&mut text, 1203);
    assert_eq!(text, "n=01203");
    push_decimal(&mut text, u32::MAX);
    assert_eq!(text, "n=012034294967295");
}

#[test]
fn pad_decimal_pads_with_zeros() {
    assert_eq!(pad_decimal(1, 3), "001");
    assert_eq!(pad_decimal(42, 2), "42");
    assert_eq!(pad_decimal(42, 5), "00042");
    assert_eq!(pad_decimal(0, 0), "0");
    assert_eq!(pad_decimal(0, 4), "0000");
    assert_eq!(pad_decimal(u32::MAX, 12), "004294967295");
}

#[test]
fn pad_decimal_never_cuts_a_number() {
    assert_eq!(pad_decimal(12345, 3), "12345");
    assert_eq!(pad_decimal(100, 0), "100");
    assert_eq!(pad_decimal(u32::MAX, 1), "4294967295");
}

#[test]
fn pad_decimal_agrees_with_std_formatting() {
    for n in [0u32, 1, 9, 10, 99, 100, 12345, u32::MAX] {
        for width in 0usize..13 {
            assert_eq!(pad_decimal(n, width), format!("{:0fill$}", n, fill = width));
        }
    }
}

#[test]
fn padded_number_reads_back() {
    for n in [0u32, 1, 9, 10, 99, 100, 12345, u32::MAX] {
        for width in 0usize..13 {
            assert_eq!(parse_decimal(&chars(&pad_decimal(n, width))), Some(n));
        }
    }
}
