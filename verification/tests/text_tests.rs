use synology_mcp::text::{colon_separated_u64s, parse_u16, parse_u64, push_decimal, to_decimal};

const SAMPLES: &[&str] = &[
    "", "0", "7", "+7", "+", "-1", "-0", "42", "007", "1a", " 1", "1 ", "++1", "+-1", "65535",
    "65536", "18446744073709551615", "18446744073709551616", "99999999999999999999999", "١٢",
    "3.5", "1e3",
];

#[test]
fn decimal_text_of_small_and_large_numbers() {
    assert_eq!(to_decimal(0), "0");
    assert_eq!(to_decimal(9), "9");
    assert_eq!(to_decimal(10), "10");
    assert_eq!(to_decimal(7336805), "7336805");
    assert_eq!(to_decimal(u64::MAX), "18446744073709551615");
}

#[test]
fn decimal_text_agrees_with_to_string() {
    for n in [0u64, 1, 5001, 65535, 1 << 40, u64::MAX - 1, u64::MAX] {
        assert_eq!(to_decimal(n), n.to_string());
    }
}

#[test]
fn push_decimal_appends() {
    let mut s = String::from("port=");
    push_decimal(&mut s, 3000);
    assert_eq!(s, "port=3000");
}

#[test]
fn parse_u64_examples() {
    assert_eq!(parse_u64("42"), Some(42));
    assert_eq!(parse_u64("+7"), Some(7));
    assert_eq!(parse_u64("007"), Some(7));
    assert_eq!(parse_u64(""), None);
    assert_eq!(parse_u64("+"), None);
    assert_eq!(parse_u64("-1"), None);
    assert_eq!(parse_u64("18446744073709551615"), Some(u64::MAX));
    assert_eq!(parse_u64("18446744073709551616"), None);
}

#[test]
fn parse_u64_agrees_with_std() {
    for s in SAMPLES {
        assert_eq!(parse_u64(s), s.parse::<u64>().ok(), "text {:?}", s);
    }
}

#[test]
fn parse_u16_agrees_with_std() {
    for s in SAMPLES {
        assert_eq!(parse_u16(s), s.parse::<u16>().ok(), "text {:?}", s);
    }
    assert_eq!(parse_u16("65535"), Some(65535));
    assert_eq!(parse_u16("65536"), None);
}

#[test]
fn decimal_then_parse_gives_the_number_back() {
    for n in [0u64, 1, 59, 3600, 123456789, u64::MAX] {
        assert_eq!(parse_u64(&to_decimal(n)), Some(n));
    }
    for n in [0u16, 80, 5001, u16::MAX] {
        assert_eq!(parse_u16(&to_decimal(n as u64)), Some(n));
    }
}

fn split_parse_std(s: &str) -> Vec<u64> {
    s.split(':').filter_map(|p| p.parse().ok()).collect()
}

#[test]
fn colon_separated_examples() {
    assert_eq!(colon_separated_u64s("2038:0:5"), vec![2038, 0, 5]);
    assert_eq!(colon_separated_u64s("a::3:x:4"), vec![3, 4]);
    assert_eq!(colon_separated_u64s(""), Vec::<u64>::new());
    assert_eq!(colon_separated_u64s(":::"), Vec::<u64>::new());
    assert_eq!(colon_separated_u64s("12"), vec![12]);
}

#[test]
fn colon_separated_agrees_with_split_and_parse() {
    for s in ["2038:0:5", "1:2:3:4", ":1:", "x", "+1:-1:2", "18446744073709551616:1:1", "a:b:c"] {
        assert_eq!(colon_separated_u64s(s), split_parse_std(s), "text {:?}", s);
    }
}
