use x_panel::number::{decimal, f64_of_exec, half_even_div_exec, parse_i32, parse_i64, parse_u64, push_int_decimal};
use x_panel::text::{
    chars_of, contains, ends_with, find, is_whitespace, lines, split_on, split_str,
    split_whitespace, starts_with, str_eq, string_of, strip_prefix, trim, trim_end_char,
    trim_start_matches,
};

fn cv(s: &str) -> Vec<char> {
    s.chars().collect()
}

fn st(v: &[char]) -> String {
    v.iter().collect()
}

fn sts(v: &[Vec<char>]) -> Vec<String> {
    v.iter().map(|p| st(p)).collect()
}

const NUMBERS: &[&str] = &[
    "0", "42", "+7", "-1", "-0", "", "+", "-", "12a", " 5", "5 ", "007", "18446744073709551615",
    "18446744073709551616", "9223372036854775807", "9223372036854775808", "-9223372036854775808",
    "-9223372036854775809", "2147483647", "2147483648", "-2147483648", "-2147483649", "１",
];

#[test]
fn parsing_matches_std() {
    for s in NUMBERS {
        assert_eq!(parse_u64(&cv(s)), s.parse::<u64>().ok(), "u64 {:?}", s);
        assert_eq!(parse_i64(&cv(s)), s.parse::<i64>().ok(), "i64 {:?}", s);
        assert_eq!(parse_i32(&cv(s)), s.parse::<i32>().ok(), "i32 {:?}", s);
    }
}

#[test]
fn decimal_reads_back() {
    for n in [0u64, 9, 10, 99, 100, 123456789, u64::MAX] {
        let d = decimal(n);
        assert_eq!(st(&d), n.to_string());
        assert_eq!(parse_u64(&d), Some(n));
    }
    for v in [0i64, -1, 17, i64::MIN, i64::MAX] {
        let mut out = Vec::new();
        push_int_decimal(&mut out, v);
        assert_eq!(st(&out), v.to_string());
    }
}

#[test]
fn halves_round_to_even() {
    assert_eq!(half_even_div_exec(5, 2), 2);
    assert_eq!(half_even_div_exec(7, 2), 4);
    assert_eq!(half_even_div_exec(3, 2), 2);
    assert_eq!(half_even_div_exec(1, 2), 0);
    assert_eq!(half_even_div_exec(10, 4), 2);
    assert_eq!(half_even_div_exec(14, 4), 4);
    assert_eq!(half_even_div_exec(11, 4), 3);
    assert_eq!(half_even_div_exec(9, 4), 2);
    assert_eq!(half_even_div_exec(8, 1), 8);
}

#[test]
fn u64_to_f64_matches_the_cast() {
    let samples = [
        0u64,
        1,
        (1 << 53) - 1,
        1 << 53,
        (1 << 53) + 1,
        (1 << 53) + 3,
        (1 << 54) + 2,
        (1 << 54) + 6,
        u64::MAX,
        u64::MAX - 1024,
        12345678901234567890,
        (1 << 63) + 1024,
        (1 << 63) + 3072,
    ];
    for b in samples {
        let f = f64_of_exec(b);
        assert_eq!(f as f64, b as f64, "{}", b);
        assert_eq!((b as f64) as u128, f, "{}", b);
    }
}

#[test]
fn whitespace_matches_char() {
    for c in [' ', '\t', '\n', '\r', '\u{b}', '\u{c}', '\u{85}', '\u{a0}', '\u{1680}', '\u{2000}', '\u{200a}', '\u{200b}', '\u{2028}', '\u{2029}', '\u{202f}', '\u{205f}', '\u{3000}', 'a', '0', '\u{feff}', '\u{180e}'] {
        assert_eq!(is_whitespace(c), c.is_whitespace(), "{:?}", c);
    }
}

#[test]
fn trimming_and_splitting_match_str() {
    for s in ["  a b  ", "", "   ", "\u{3000}中 文\t", "x"] {
        assert_eq!(st(&trim(&cv(s))), s.trim());
        let words: Vec<String> = s.split_whitespace().map(|w| w.to_string()).collect();
        assert_eq!(sts(&split_whitespace(&cv(s))), words);
    }
    for s in ["a:b:c", ":", "", "abc", "a::"] {
        let parts: Vec<String> = s.split(':').map(|w| w.to_string()).collect();
        assert_eq!(sts(&split_on(&cv(s), ':')), parts);
    }
    for s in ["a, b, c", ", ", "", "a,b", "x, "] {
        let parts: Vec<String> = s.split(", ").map(|w| w.to_string()).collect();
        assert_eq!(sts(&split_str(&cv(s), &cv(", "))), parts);
    }
}

#[test]
fn lines_match_str() {
    for s in ["a\r\nb\n", "a\n\nb", "", "\n", "x\r", "one", "a\nb\r\n\r\n"] {
        let ls: Vec<String> = s.lines().map(|l| l.to_string()).collect();
        assert_eq!(sts(&lines(&cv(s))), ls, "{:?}", s);
    }
}

#[test]
fn searching_matches_str() {
    let hay = cv("Signal level=-40 dBm level");
    assert_eq!(find(&hay, &cv("level")), Some(7));
    assert_eq!(find(&hay, &cv("zzz")), None);
    assert_eq!(find(&hay, &cv("")), Some(0));
    assert!(contains(&hay, &cv("dBm")));
    assert!(!contains(&hay, &cv("dbm")));
    assert!(starts_with(&hay, &cv("Signal")));
    assert!(ends_with(&hay, &cv("level")));
    assert_eq!(strip_prefix(&cv("inet 10.0.0.1"), &cv("inet ")).map(|v| st(&v)), Some("10.0.0.1".to_string()));
    assert_eq!(strip_prefix(&cv("inet6 ::1"), &cv("inet ")), None);
    assert_eq!(st(&trim_start_matches(&cv("https://https://x"), &cv("https://"))), "x");
    assert_eq!(st(&trim_end_char(&cv("12..."), '.')), "12");
    assert!(str_eq("中文", "中文"));
    assert!(!str_eq("a", "b"));
    assert_eq!(string_of(&chars_of("héllo")), "héllo");
}
