use termarium::text::{
    compact, contains_cjk, eq_ignore_ascii_case, is_whitespace, lines, normalize,
    parse_u32_chars, parse_u32_words, push_decimal, split_chars, str_contains, trim_chars,
};

fn chars(s: &str) -> Vec<char> {
    s.chars().collect()
}

fn text(v: &[char]) -> String {
    v.iter().collect()
}

#[test]
fn trimming_uses_unicode_white_space() {
    assert_eq!(text(&trim_chars(&chars("  a b \t\n"))), "a b");
    assert_eq!(text(&trim_chars(&chars("\u{3000}北京\u{a0}"))), "北京");
    assert_eq!(text(&trim_chars(&chars("   "))), "");
    assert!(is_whitespace('\u{2028}'));
    assert!(!is_whitespace('\u{200b}'));
}

#[test]
fn normalized_and_compact_forms() {
    assert_eq!(text(&normalize("  Tau Ceti ")), "tau ceti");
    assert_eq!(text(&compact(" HD 10700 ")), "hd10700");
    assert_eq!(text(&compact("Xi'an-Shaanxi")), "xianshaanxi");
}

#[test]
fn substring_search_matches_str_contains() {
    for (hay, needle) in [("vega", "eg"), ("vega", ""), ("", "a"), ("参宿四", "宿四"), ("aaa", "aaaa")] {
        assert_eq!(str_contains(hay, needle), hay.contains(needle));
    }
    assert!(contains_cjk("天仓五"));
    assert!(!contains_cjk("Tau Ceti"));
    assert!(eq_ignore_ascii_case("UMa", "uma"));
    assert!(!eq_ignore_ascii_case("UMa", "umi"));
}

#[test]
fn numbers_round_trip_through_text() {
    for n in [0u32, 7, 10, 8102, 4294967295] {
        let mut out = Vec::new();
        push_decimal(n, &mut out);
        assert_eq!(text(&out), n.to_string());
        assert_eq!(parse_u32_chars(&out), Some(n));
    }
    assert_eq!(parse_u32_chars(&chars("4294967296")), None);
    assert_eq!(parse_u32_chars(&chars("-1")), None);
    assert_eq!(parse_u32_chars(&chars("+")), None);
    assert_eq!(parse_u32_chars(&chars("12a")), None);
    assert_eq!(parse_u32_words(&chars(" 1 x 22  +3 -4 ")), vec![1, 22, 3]);
}

#[test]
fn splitting_and_lines_follow_std() {
    let fields = split_chars(&chars("a,,b,"), ',');
    let fields: Vec<String> = fields.iter().map(|f| text(f)).collect();
    assert_eq!(fields, vec!["a", "", "b", ""]);
    for sample in ["a\nb", "a\r\nb\n", "", "\n", "x\r", "a\n\nb\r\n\r\n"] {
        let ours: Vec<String> = lines(sample).iter().map(|l| text(l)).collect();
        let std: Vec<String> = sample.lines().map(|l| l.to_string()).collect();
        assert_eq!(ours, std, "lines of {sample:?}");
    }
}
