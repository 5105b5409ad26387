use statusbar::text::{
    chars_of, parse_u64_chars, push_decimal, push_i64_width2, push_signed_decimal,
    push_u64_width2, push_u64_zero2, split_lines, split_words, strip_prefix_chars,
};

fn chars(s: &str) -> Vec<char> {
    s.chars().collect()
}

fn strings(v: Vec<Vec<char>>) -> Vec<String> {
    v.into_iter().map(|w| w.into_iter().collect()).collect()
}

#[test]
fn decimal_rendering() {
    let mut buf = String::from("x=");
    push_decimal(&mut buf, 0);
    assert_eq!(buf, "x=0");
    let mut buf = String::new();
    push_decimal(&mut buf, 1234567890);
    assert_eq!(buf, "1234567890");
    let mut buf = String::new();
    push_decimal(&mut buf, u64::MAX);
    assert_eq!(buf, u64::MAX.to_string());
}

#[test]
fn signed_decimal_rendering() {
    let mut buf = String::new();
    push_signed_decimal(&mut buf, -42);
    assert_eq!(buf, "-42");
    let mut buf = String::new();
    push_signed_decimal(&mut buf, i64::MIN);
    assert_eq!(buf, i64::MIN.to_string());
}

#[test]
fn padded_rendering() {
    for n in [0u64, 7, 10, 99, 100, 12345] {
        let mut a = String::new();
        push_u64_width2(&mut a, n);
        assert_eq!(a, format!("{:2}", n));
        let mut b = String::new();
        push_u64_zero2(&mut b, n);
        assert_eq!(b, format!("{:02}", n));
    }
    for n in [-100i64, -5, 0, 5, 42, 100] {
        let mut c = String::new();
        push_i64_width2(&mut c, n);
        assert_eq!(c, format!("{:2}", n));
    }
}

#[test]
fn parse_like_std() {
    for s in [
        "0", "42", "+42", "", "+", "-1", "-", "12a", " 1", "007",
        "18446744073709551615", "18446744073709551616", "99999999999999999999", "١",
    ] {
        assert_eq!(parse_u64_chars(&chars(s)), s.parse::<u64>().ok(), "{:?}", s);
    }
}

#[test]
fn words_like_split_whitespace() {
    for s in ["", "  ", "a", " a  b\tc\n", "x\u{a0}y\u{3000}z", "cpu  1 2 3", "a\u{2009}b"] {
        let expected: Vec<String> = s.split_whitespace().map(String::from).collect();
        assert_eq!(strings(split_words(&chars(s))), expected, "{:?}", s);
    }
}

#[test]
fn lines_like_str_lines() {
    for s in ["", "\n", "a", "a\n", "a\r\nb", "a\r", "a\n\nb\r\n", "\r\n"] {
        let expected: Vec<String> = s.lines().map(String::from).collect();
        assert_eq!(strings(split_lines(&chars(s))), expected, "{:?}", s);
    }
}

#[test]
fn prefix_stripping() {
    let rest = strip_prefix_chars(&chars("MemTotal: 100 kB"), &chars("MemTotal:"));
    assert_eq!(rest.map(|v| v.into_iter().collect::<String>()), Some(" 100 kB".to_string()));
    assert_eq!(strip_prefix_chars(&chars("Mem"), &chars("MemTotal:")), None);
    assert_eq!(strip_prefix_chars(&chars("MemFree: 1"), &chars("MemTotal:")), None);
    assert_eq!(chars_of("héllo"), chars("héllo"));
}
