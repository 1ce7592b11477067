use phm_worker::text::{is_decimal_literal, is_whitespace, parse_unsigned, split_lines, split_words};

#[test]
fn whitespace_is_that_of_std() {
    for u in 0..=0x10ffffu32 {
        if let Some(c) = char::from_u32(u) {
            assert_eq!(is_whitespace(c), c.is_whitespace(), "{u:#x}");
        }
    }
}

#[test]
fn lines_are_those_of_std() {
    for s in [
        "", "a", "a\n", "a\nb", "\n", "\n\n", "a\r\nb\r", "\r\n", "a\rb\n", "x\n\r\ny", "é\nß\u{2028}",
    ] {
        assert_eq!(split_lines(s), s.lines().collect::<Vec<_>>(), "{s:?}");
    }
}

#[test]
fn words_are_those_of_std() {
    for s in [
        "", " ", "a", " a", "a ", "a b", "\ta\u{a0}b\u{3000}c\n", "VmRSS:\t  1234 kB", "a\u{200b}b",
        "\u{85}é ß\u{1680}",
    ] {
        assert_eq!(split_words(s), s.split_whitespace().collect::<Vec<_>>(), "{s:?}");
    }
}

#[test]
fn integers_are_those_of_std() {
    for s in [
        "", "0", "+0", "-0", "+", "-", "++1", "12", "007", "1_0", " 1", "1 ", "1a", "٣",
        "18446744073709551615", "18446744073709551616", "+18446744073709551615",
        "000000000000000000000000000001", "99999999999999999999999",
    ] {
        assert_eq!(parse_unsigned(s), s.parse::<u64>().ok(), "{s:?}");
    }
    assert_eq!(parse_unsigned("42"), Some(42));
}

#[test]
fn decimals_are_those_of_std() {
    for s in [
        "", ".", "+", "-", "1", "+1", "-1", "1.", ".1", "1.5", "-.5e3", "1e", "1e+", "1e5", "1E-5",
        "e5", ".e5", "1.e5", "1..2", "1.2.3", "inf", "INF", "-Infinity", "infinit", "nan", "+NaN",
        "nano", "0x10", "1_0", " 1", "1 ", "1e5.0", "1e999", "--1", "12345.67", "1ee5", "1e5e5",
        "1f", "٣", "+inf", "infinity1", "i", "1e-", "5.e", "5.e+1",
    ] {
        assert_eq!(is_decimal_literal(s), s.parse::<f64>().is_ok(), "{s:?}");
    }
}
