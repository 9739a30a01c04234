use osu_player::text::{parse_decimal, parse_i32, parse_u8, trim_chars, Decimal};

fn chars(s: &str) -> Vec<char> {
    s.chars().collect()
}

#[test]
fn integers_follow_std_grammar() {
    for s in ["0", "-17", "+42", "2147483647", "-2147483648", "", "-", "+", "1x", " 1", "2147483648", "007"] {
        assert_eq!(parse_i32(&chars(s)), s.parse::<i32>().ok(), "{s}");
    }
    for s in ["0", "255", "256", "+7", "-0", "", "12a"] {
        assert_eq!(parse_u8(&chars(s)), s.parse::<u8>().ok(), "{s}");
    }
}

#[test]
fn decimals() {
    assert_eq!(parse_decimal(&chars("1.5")), Some(Decimal { mantissa: 15, scale: 1 }));
    assert_eq!(parse_decimal(&chars("-.25")), Some(Decimal { mantissa: -25, scale: 2 }));
    assert_eq!(parse_decimal(&chars("3.")), Some(Decimal { mantissa: 3, scale: 0 }));
    assert_eq!(parse_decimal(&chars(".")), None);
    assert_eq!(parse_decimal(&chars("1e3")), None);
    assert_eq!(parse_decimal(&chars("99999999999999999999")), None);
}

#[test]
fn trimming_unicode_space() {
    assert_eq!(trim_chars(&chars("\u{3000} a b\t\r")), chars("a b"));
    assert_eq!(trim_chars(&chars("   ")), Vec::<char>::new());
}
