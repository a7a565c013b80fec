use rumble::text::{parse_usize, push_decimal, push_zero_padded, str_eq, trim_str};

#[test]
fn decimal_is_appended() {
    let mut s = String::from("n=");
    push_decimal(&mut s, 0);
    s.push(' ');
    push_decimal(&mut s, 1234567890123);
    assert_eq!(s, "n=0 1234567890123");
}

#[test]
fn decimal_of_largest_u64() {
    let mut s = String::new();
    push_decimal(&mut s, u64::MAX);
    assert_eq!(s, u64::MAX.to_string());
}

#[test]
fn zero_padding_fills_to_width() {
    let mut s = String::new();
    push_zero_padded(&mut s, 7, 4);
    assert_eq!(s, "0007");
    let mut s = String::new();
    push_zero_padded(&mut s, 12345, 4);
    assert_eq!(s, "12345");
    let mut s = String::new();
    push_zero_padded(&mut s, 0, 2);
    assert_eq!(s, "00");
}

#[test]
fn zero_padding_matches_format() {
    for n in [0u64, 5, 42, 999, 1000, 9999, 10000] {
        let mut s = String::new();
        push_zero_padded(&mut s, n, 4);
        assert_eq!(s, format!("{:04}", n));
    }
}

#[test]
fn parse_accepts_what_std_accepts() {
    for text in ["0", "42", "+7", "0007", "18446744073709551615", "4294967295"] {
        assert_eq!(parse_usize(text), text.parse::<usize>().ok());
    }
    assert_eq!(parse_usize("+7"), Some(7));
    assert_eq!(parse_usize("0042"), Some(42));
}

#[test]
fn parse_refuses_what_std_refuses() {
    for text in ["", "+", "-1", "-0", "12a", " 1", "1 ", "++1", "18446744073709551616", "\u{663}"] {
        assert_eq!(parse_usize(text), None, "{:?}", text);
        assert_eq!(text.parse::<usize>().ok(), None, "{:?}", text);
    }
}

#[test]
fn trim_removes_unicode_white_space() {
    assert_eq!(trim_str("  ab c \n"), "ab c");
    assert_eq!(trim_str("\u{3000}x\u{85}"), "x");
    assert_eq!(trim_str("\t\r\n"), "");
    assert_eq!(trim_str(""), "");
    let samples = ["\u{a0}a\u{2009}", " \u{200b}b ", "\u{1680}c\u{202f}"];
    for t in samples {
        assert_eq!(trim_str(t), t.trim());
    }
}

#[test]
fn string_equality_by_characters() {
    assert!(str_eq("language", "language"));
    assert!(!str_eq("language", "Language"));
    assert!(!str_eq("title", "titles"));
    assert!(str_eq("", ""));
}
