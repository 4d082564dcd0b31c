use dp_net::text::{
    begins_with, behind_last, chars_of, find_char, find_text, is_digit, is_space, parse_digits,
    parse_port, push_decimal, same_text, split_lines, split_words, string_of, trimmed,
};

fn strings(parts: Vec<&[char]>) -> Vec<String> {
    parts.iter().map(|p| string_of(p)).collect()
}

#[test]
fn white_space_is_that_of_the_standard_library() {
    let mut u: u32 = 0;
    while u <= 0x10ffff {
        if let Some(c) = char::from_u32(u) {
            assert_eq!(is_space(c), c.is_whitespace(), "{:x}", u);
            assert_eq!(is_digit(c), c.is_ascii_digit(), "{:x}", u);
        }
        u += 1;
    }
}

#[test]
fn lines_are_those_of_the_standard_library() {
    let texts = [
        "", "\n", "\r\n", "a", "a\n", "a\r\n", "a\r", "\r", "a\n\nb", "a\r\r\nb", "x\ny\r\nz\n",
        "\n\n", "a\rb\n",
    ];
    for text in texts {
        let chars = chars_of(text);
        let expected: Vec<String> = text.lines().map(|l| l.to_string()).collect();
        assert_eq!(strings(split_lines(&chars)), expected, "{:?}", text);
    }
}

#[test]
fn words_are_those_of_the_standard_library() {
    let texts = ["", "  ", "a", " a", "a ", "a b", "\ta\u{a0}b\u{3000}c  d", "a\nb", "é ü"];
    for text in texts {
        let chars = chars_of(text);
        let expected: Vec<String> = text.split_whitespace().map(|w| w.to_string()).collect();
        assert_eq!(strings(split_words(&chars)), expected, "{:?}", text);
    }
}

#[test]
fn trimming_is_that_of_the_standard_library() {
    for text in ["", " ", "a", " a ", "\n\ta b\r\n", "\u{2003}x", "x\u{85}"] {
        let chars = chars_of(text);
        assert_eq!(string_of(trimmed(&chars)), text.trim(), "{:?}", text);
    }
}

#[test]
fn port_numbers_are_those_of_the_standard_library() {
    let texts = [
        "", "+", "-", "0", "+0", "00", "007", "80", "+80", "++80", "-1", "65535", "65536", "+65535",
        "000000065535", "99999999999999999999", "8080 ", " 80", "8o", "٣", "-0",
    ];
    for text in texts {
        let chars = chars_of(text);
        assert_eq!(parse_port(&chars), text.parse::<u16>().ok(), "{:?}", text);
    }
}

#[test]
fn numbers_in_decimal() {
    for n in [0u64, 7, 10, 99, 100, 255, 65535, 4294967295, u64::MAX] {
        let mut out = "n=".to_string();
        push_decimal(&mut out, n);
        assert_eq!(out, format!("n={}", n));
    }
    assert_eq!(parse_digits(&chars_of("255"), 255), Some(255));
    assert_eq!(parse_digits(&chars_of("256"), 255), None);
    assert_eq!(parse_digits(&chars_of("4294967295"), u32::MAX), Some(u32::MAX));
    assert_eq!(parse_digits(&chars_of("4294967296"), u32::MAX), None);
}

#[test]
fn finding_in_text() {
    let s = chars_of("a:b:c");
    assert_eq!(find_char(&s, ':'), 1);
    assert_eq!(find_char(&s, 'x'), 5);
    assert_eq!(find_text(&s, &chars_of("b:")), 2);
    assert_eq!(find_text(&s, &chars_of("bc")), 5);
    assert_eq!(string_of(behind_last(&s, ':')), "c");
    assert_eq!(string_of(behind_last(&s, '/')), "a:b:c");
    assert_eq!(string_of(behind_last(&chars_of("a:"), ':')), "");
    assert!(begins_with(&s, &chars_of("a:")));
    assert!(!begins_with(&s, &chars_of("a:b:c:")));
    assert!(same_text(&s, &chars_of("a:b:c")));
    assert!(!same_text(&s, &chars_of("a:b")));
}
