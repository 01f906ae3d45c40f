use csfx::num::{parse_i32, parse_i64, parse_u16, parse_u32};
use csfx::text::{
    byte_length, byte_prefix, char_prefix, contains_str, format_i64, format_u64, head,
    join_strings, pad_to, repeat_char, split_char, split_once_char, split_words, starts_with,
    str_equal, trim, trim_end_matches_char, trim_start_matches_char,
};

const SAMPLES: &[&str] = &[
    "", " ", "a", "abc", "  a  b\tc\n", "héllo wörld", "日本語 テキスト", "a\u{3000}b", "x\u{85}y",
    "1.2.3", "v1.2.3-rc.1", "..", "a..b.", "-", "a-b-c", "///", "http://h:8000//",
];

#[test]
fn byte_length_matches_str_len() {
    for s in SAMPLES {
        assert_eq!(byte_length(s), s.len());
    }
}

#[test]
fn trims_match_std() {
    for s in SAMPLES {
        assert_eq!(trim(s), s.trim());
        assert_eq!(trim_end_matches_char(s, '/'), s.trim_end_matches('/'));
        assert_eq!(trim_start_matches_char(s, 'v'), s.trim_start_matches('v'));
    }
}

#[test]
fn splitting_matches_std() {
    for s in SAMPLES {
        let words: Vec<String> = s.split_whitespace().map(|w| w.to_string()).collect();
        assert_eq!(split_words(s), words);
        let parts: Vec<String> = s.split('.').map(|w| w.to_string()).collect();
        assert_eq!(split_char(s, '.'), parts);
        let once = s.split_once('-').map(|(a, b)| (a.to_string(), b.to_string()));
        assert_eq!(split_once_char(s, '-'), once);
    }
}

#[test]
fn prefixes_match_std() {
    for s in SAMPLES {
        for n in 0..12 {
            assert_eq!(char_prefix(s, n), s.chars().take(n).collect::<String>());
            if s.is_char_boundary(n.min(s.len())) {
                assert_eq!(head(s, n), &s[..n.min(s.len())]);
            }
            if n <= s.len() && s.is_char_boundary(n) {
                assert_eq!(byte_prefix(s, n), &s[..n]);
            }
        }
        for p in SAMPLES {
            assert_eq!(starts_with(s, p), s.starts_with(p));
            assert_eq!(contains_str(s, p), s.contains(p));
            assert_eq!(str_equal(s, p), s == p);
        }
    }
}

#[test]
fn padding_and_repetition_match_format() {
    for s in SAMPLES {
        for w in 0..14 {
            assert_eq!(pad_to(s, w), format!("{:<w$}", s, w = w));
        }
    }
    assert_eq!(repeat_char('-', 4), "----");
    assert_eq!(repeat_char('-', 0), "");
}

#[test]
fn joining_matches_std() {
    let parts = vec!["a".to_string(), "bc".to_string(), "".to_string()];
    assert_eq!(join_strings(&parts, "   "), parts.join("   "));
    assert_eq!(join_strings(&Vec::new(), ", "), "");
    assert_eq!(join_strings(&vec!["x".to_string()], ", "), "x");
}

#[test]
fn decimal_formatting_matches_to_string() {
    for n in [0u64, 1, 9, 10, 99, 100, 12345, u64::MAX] {
        assert_eq!(format_u64(n), n.to_string());
    }
    for i in [0i64, -1, 7, -10, 86400, i64::MIN, i64::MAX] {
        assert_eq!(format_i64(i), i.to_string());
    }
}

const NUMBERS: &[&str] = &[
    "", "+", "-", "0", "-0", "+0", "42", "+42", "-42", "007", "4294967295", "4294967296",
    "65535", "65536", "2147483647", "2147483648", "-2147483648", "-2147483649",
    "9223372036854775807", "9223372036854775808", "-9223372036854775808",
    "-9223372036854775809", "99999999999999999999999", "1a", " 1", "1 ", "++1", "١", "12_3",
];

#[test]
fn integer_parsing_matches_std() {
    for s in NUMBERS {
        assert_eq!(parse_u32(s), s.parse::<u32>().ok(), "u32 {:?}", s);
        assert_eq!(parse_u16(s), s.parse::<u16>().ok(), "u16 {:?}", s);
        assert_eq!(parse_i32(s), s.parse::<i32>().ok(), "i32 {:?}", s);
        assert_eq!(parse_i64(s), s.parse::<i64>().ok(), "i64 {:?}", s);
    }
}
