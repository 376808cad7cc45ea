use clipway::text::{
    chars_equal, collapse_whitespace, parse_i64_chars, parse_unsigned_chars, preview,
    trim_chars, IntProblem,
};

fn chars(s: &str) -> Vec<char> {
    s.chars().collect()
}

#[test]
fn collapse_joins_words_with_single_spaces() {
    let r: String = collapse_whitespace(&chars("  a\t\tb \n c  ")).into_iter().collect();
    assert_eq!(r, "a b c");
    let r: String = collapse_whitespace(&chars("\u{3000}x\u{a0}y")).into_iter().collect();
    assert_eq!(r, "x y");
    assert!(collapse_whitespace(&chars(" \t\n")).is_empty());
}

#[test]
fn preview_truncates_with_ellipsis() {
    assert_eq!(preview("abcdef", 3, "-"), "abc...");
    assert_eq!(preview("abc", 3, "-"), "abc");
    assert_eq!(preview("   ", 3, "-"), "-");
}

#[test]
fn trim_drops_unicode_white_space() {
    let r: String = trim_chars(&chars("\u{2003} a b \u{205f}")).into_iter().collect();
    assert_eq!(r, "a b");
}

#[test]
fn unsigned_parsing_follows_from_str() {
    let max = u32::MAX as u64;
    for s in ["0", "+7", "42", "4294967295", "4294967296", "", "+", "-", "-1", "1a", "99999999999x", "x9"] {
        let expected = s.parse::<u32>();
        let got = parse_unsigned_chars(&chars(s), max);
        match expected {
            Ok(v) => assert_eq!(got, Ok(v as u64), "{s}"),
            Err(e) => {
                let p = got.unwrap_err();
                assert_eq!(p.message(), e.to_string(), "{s}");
            }
        }
    }
}

#[test]
fn signed_parsing_follows_from_str() {
    for s in [
        "0", "-0", "+5", "-42", "9223372036854775807", "-9223372036854775808",
        "9223372036854775808", "-9223372036854775809", "", "-", "+", "--1", "1-",
    ] {
        let expected = s.parse::<i64>();
        let got = parse_i64_chars(&chars(s));
        match expected {
            Ok(v) => assert_eq!(got, Ok(v), "{s}"),
            Err(e) => assert_eq!(got.unwrap_err().message(), e.to_string(), "{s}"),
        }
    }
}

#[test]
fn parse_problem_kinds() {
    assert_eq!(parse_unsigned_chars(&chars(""), 10), Err(IntProblem::Empty));
    assert_eq!(parse_unsigned_chars(&chars("11"), 10), Err(IntProblem::PosOverflow));
    assert_eq!(parse_i64_chars(&chars("-99999999999999999999")), Err(IntProblem::NegOverflow));
    assert_eq!(parse_i64_chars(&chars("1.5")), Err(IntProblem::InvalidDigit));
}

#[test]
fn equal_texts() {
    assert!(chars_equal("abc", "abc"));
    assert!(!chars_equal("abc", "abd"));
    assert!(!chars_equal("ab", "abc"));
}

#[test]
fn white_space_matches_char_is_whitespace() {
    for code in 0u32..=0x10FFFF {
        if let Some(c) = char::from_u32(code) {
            assert_eq!(clipway::text::is_whitespace(c), c.is_whitespace(), "U+{code:04X}");
        }
    }
}

fn samples() -> Vec<String> {
    let pieces = ["a", " ", "\t", "\n", "\u{3000}", "é", "xy", "\u{2028}", "  ", "z\u{a0}"];
    let mut out = Vec::new();
    let mut seed: u64 = 12345;
    for _ in 0..2000 {
        let mut s = String::new();
        seed = seed.wrapping_mul(6364136223846793005).wrapping_add(1442695040888963407);
        let len = (seed >> 60) as usize;
        for k in 0..len {
            let idx = ((seed >> (k * 4 % 56)) & 0xf) as usize % pieces.len();
            s.push_str(pieces[idx]);
        }
        out.push(s);
    }
    out
}

#[test]
fn trim_matches_str_trim() {
    for s in samples() {
        let r: String = trim_chars(&chars(&s)).into_iter().collect();
        assert_eq!(r, s.trim(), "{s:?}");
    }
}

#[test]
fn collapse_matches_split_and_join() {
    for s in samples() {
        let r: String = collapse_whitespace(&chars(&s)).into_iter().collect();
        assert_eq!(r, s.split_whitespace().collect::<Vec<_>>().join(" "), "{s:?}");
    }
}
