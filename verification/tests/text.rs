use llm_daemon::text::{
    chars_to_string, int_to_string, is_whitespace, nonblank_lines_of, str_chars, str_eq,
    trim_str,
};

#[test]
fn whitespace_is_the_unicode_property() {
    for c in (0u32..=0x10FFFF).filter_map(char::from_u32) {
        assert_eq!(is_whitespace(c), c.is_whitespace(), "{:?}", c);
    }
}

#[test]
fn trim_matches_str_trim() {
    for s in [
        "",
        "   ",
        "  a b  ",
        "\t\n x\r\n",
        "\u{3000}\u{a0}word\u{2029}",
        "no-trim",
        "\u{200b}zero width\u{200b}",
    ] {
        assert_eq!(trim_str(s), s.trim());
    }
}

#[test]
fn nonblank_lines_match_std_lines() {
    for s in [
        "",
        "\n\n",
        "a\nb",
        "a\r\nb\r\n",
        "  a  \n\n \t \n b \r\n",
        "x\ry\nz",
        "last line without newline",
        "\u{85}a\u{85}\nb",
    ] {
        let ours: Vec<String> = nonblank_lines_of(&str_chars(s))
            .iter()
            .map(|l| l.iter().collect())
            .collect();
        let std_lines: Vec<String> = s
            .lines()
            .map(|l| l.trim())
            .filter(|l| !l.is_empty())
            .map(|l| l.to_string())
            .collect();
        assert_eq!(ours, std_lines, "{:?}", s);
    }
}

#[test]
fn chars_round_trip() {
    let s = "héllo, wörld ✓";
    assert_eq!(chars_to_string(&str_chars(s)), s);
    assert!(str_eq("abc", "abc"));
    assert!(!str_eq("abc", "abd"));
    assert!(!str_eq("abc", "ab"));
}

#[test]
fn integers_are_written_in_decimal() {
    for i in [0i64, 7, 10, 123, -1, -45, i64::MAX, i64::MIN] {
        assert_eq!(int_to_string(i), i.to_string());
    }
}
