use suplex::text::{
    chars_of, find_chars, parse_i32, parse_u16, parse_u32, parse_u64, rfind_chars,
    string_from_chars, trim_chars,
};

fn v(s: &str) -> Vec<char> {
    s.chars().collect()
}

#[test]
fn trimming_strips_unicode_whitespace() {
    assert_eq!(trim_chars(&v(" \t a b \n")), v("a b"));
    assert_eq!(trim_chars(&v("\u{3000}x\u{a0}")), v("x"));
    assert_eq!(trim_chars(&v("   ")), v(""));
    for s in ["", " x ", "\u{2028}y\u{85}", "z"] {
        assert_eq!(trim_chars(&v(s)), v(s.trim()));
    }
}

#[test]
fn searching_finds_first_and_last_places() {
    assert_eq!(find_chars(&v("abcabc"), &v("bc")), Some(1));
    assert_eq!(rfind_chars(&v("abcabc"), &v("bc")), Some(4));
    assert_eq!(find_chars(&v("abc"), &v("x")), None);
    assert_eq!(rfind_chars(&v("ab"), &v("abc")), None);
    assert_eq!(find_chars(&v("abc"), &v("")), Some(0));
    assert_eq!(rfind_chars(&v("abc"), &v("")), Some(3));
}

#[test]
fn numbers_parse_as_std_parses_them() {
    for s in ["0", "+7", "-3", "4294967295", "4294967296", "", "+", "-", "12a", "007"] {
        assert_eq!(parse_u32(&v(s)), s.parse::<u32>().ok(), "u32 {s}");
        assert_eq!(parse_i32(&v(s)), s.parse::<i32>().ok(), "i32 {s}");
        assert_eq!(parse_u16(&v(s)), s.parse::<u16>().ok(), "u16 {s}");
        assert_eq!(parse_u64(&v(s)), s.parse::<u64>().ok(), "u64 {s}");
    }
    for s in ["-2147483648", "2147483647", "-2147483649", "2147483648", "65535", "65536", "18446744073709551615", "18446744073709551616"] {
        assert_eq!(parse_i32(&v(s)), s.parse::<i32>().ok(), "i32 {s}");
        assert_eq!(parse_u16(&v(s)), s.parse::<u16>().ok(), "u16 {s}");
        assert_eq!(parse_u64(&v(s)), s.parse::<u64>().ok(), "u64 {s}");
    }
}

#[test]
fn strings_and_characters_convert_both_ways() {
    assert_eq!(chars_of("h«é"), vec!['h', '«', 'é']);
    assert_eq!(string_from_chars(&['a', '«', 'b']), "a«b");
}
