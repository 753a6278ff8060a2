use touchctl::text::{
    is_space_char, lower_char, lower_is, parse_i32_chars, same_chars, same_text, slice,
    split_bounds, starts_with, to_chars, trim_bounds, upper_char, upper_is,
};

fn chars(s: &str) -> Vec<char> {
    s.chars().collect()
}

fn piece(v: &Vec<char>, r: (usize, usize)) -> String {
    v[r.0..r.1].iter().collect()
}

fn trimmed(s: &str) -> String {
    let v = chars(s);
    piece(&v, trim_bounds(&v, 0, v.len()))
}

fn pieces(s: &str, sep: char) -> Vec<String> {
    let v = chars(s);
    split_bounds(&v, 0, v.len(), sep).into_iter().map(|r| piece(&v, r)).collect()
}

fn number(s: &str) -> Option<i32> {
    let v = chars(s);
    parse_i32_chars(&v, 0, v.len())
}

#[test]
fn characters_of_a_text() {
    assert_eq!(to_chars(""), Vec::<char>::new());
    assert_eq!(to_chars("a+b"), vec!['a', '+', 'b']);
    assert_eq!(to_chars("né—x"), vec!['n', 'é', '—', 'x']);
}

#[test]
fn white_space_is_what_the_standard_library_calls_so() {
    for u in 0u32..0x11_0000 {
        if let Some(c) = char::from_u32(u) {
            assert_eq!(is_space_char(c), c.is_whitespace(), "U+{:04X}", u);
        }
    }
}

#[test]
fn case_folding_is_ascii_only() {
    for u in 0u32..0x11_0000 {
        if let Some(c) = char::from_u32(u) {
            assert_eq!(upper_char(c), c.to_ascii_uppercase());
            assert_eq!(lower_char(c), c.to_ascii_lowercase());
        }
    }
}

#[test]
fn trimming_matches_the_standard_library() {
    for s in [
        "",
        " ",
        "   ",
        "a",
        " a",
        "a ",
        "  a b  ",
        "\t\n x \r\n",
        "\u{a0}left\u{2003}",
        "\u{3000}",
        "no-space",
        " é ",
    ] {
        assert_eq!(trimmed(s), s.trim(), "{:?}", s);
    }
}

#[test]
fn trimming_a_part() {
    let v = chars("ab  cd  ef");
    assert_eq!(trim_bounds(&v, 2, 8), (4, 6));
    assert_eq!(trim_bounds(&v, 2, 4), (4, 4));
    assert_eq!(trim_bounds(&v, 3, 3), (3, 3));
    assert_eq!(trim_bounds(&v, 0, 10), (0, 10));
}

#[test]
fn splitting_matches_the_standard_library() {
    for s in ["", "a", "a+b", "+", "a+", "+a", "a++b", "CTRL+ALT+TAB", "++", "é+ü"] {
        let want: Vec<String> = s.split('+').map(|p| p.to_string()).collect();
        assert_eq!(pieces(s, '+'), want, "{:?}", s);
    }
    assert_eq!(pieces("vertical@3@x", '@'), vec!["vertical", "3", "x"]);
}

#[test]
fn splitting_a_part() {
    let v = chars("xx:a:b:yy");
    assert_eq!(split_bounds(&v, 3, 6, ':'), vec![(3, 4), (5, 6)]);
    assert_eq!(split_bounds(&v, 2, 3, ':'), vec![(2, 2), (3, 3)]);
    assert_eq!(split_bounds(&v, 4, 4, ':'), vec![(4, 4)]);
}

#[test]
fn numbers_match_the_standard_library() {
    for s in [
        "0",
        "1",
        "+1",
        "-1",
        "007",
        "-0",
        "+0",
        "2147483647",
        "2147483648",
        "+2147483647",
        "+2147483648",
        "-2147483648",
        "-2147483649",
        "99999999999999999999",
        "-99999999999999999999",
        "000000000000000000000000000012",
        "",
        "+",
        "-",
        "--1",
        "+-1",
        " 1",
        "1 ",
        "1a",
        "a",
        "1.5",
        "١٢",
        "0x10",
    ] {
        assert_eq!(number(s), s.parse::<i32>().ok(), "{:?}", s);
    }
}

#[test]
fn exact_numbers() {
    assert_eq!(number("42"), Some(42));
    assert_eq!(number("-17"), Some(-17));
    assert_eq!(number("+3"), Some(3));
    assert_eq!(number("-2147483648"), Some(i32::MIN));
    assert_eq!(number("2147483647"), Some(i32::MAX));
    assert_eq!(number("2147483648"), None);
    let v = chars("ab-12cd");
    assert_eq!(parse_i32_chars(&v, 2, 5), Some(-12));
    assert_eq!(parse_i32_chars(&v, 3, 5), Some(12));
    assert_eq!(parse_i32_chars(&v, 2, 6), None);
    assert_eq!(parse_i32_chars(&v, 3, 3), None);
}

#[test]
fn comparing_texts() {
    assert!(same_text("", ""));
    assert!(same_text("toggle", "toggle"));
    assert!(!same_text("toggle", "toggle "));
    assert!(!same_text("toggle", "Toggle"));
    assert!(!same_text("a", ""));
    let v = chars("key:TAB");
    assert!(same_chars(&v, 4, 7, &chars("TAB")));
    assert!(!same_chars(&v, 4, 7, &chars("TAb")));
    assert!(!same_chars(&v, 4, 6, &chars("TAB")));
    assert!(same_chars(&v, 2, 2, &chars("")));
}

#[test]
fn comparing_in_folded_case() {
    let v = chars("xCtRly");
    assert!(upper_is(&v, 1, 5, "CTRL"));
    assert!(!upper_is(&v, 1, 5, "ctrl"));
    assert!(lower_is(&v, 1, 5, "ctrl"));
    assert!(!lower_is(&v, 1, 5, "CTRL"));
    assert!(!upper_is(&v, 0, 5, "CTRL"));
    assert!(upper_is(&v, 3, 3, ""));
    let k = chars("ſ");
    assert!(!upper_is(&k, 0, 1, "S"));
}

#[test]
fn prefixes() {
    assert!(starts_with(&chars("mouse:left"), "mouse:"));
    assert!(starts_with(&chars("mouse:"), "mouse:"));
    assert!(!starts_with(&chars("mouse"), "mouse:"));
    assert!(!starts_with(&chars("Mouse:left"), "mouse:"));
    assert!(starts_with(&chars("anything"), ""));
    assert!(starts_with(&chars(""), ""));
}

#[test]
fn slices_count_characters_not_bytes() {
    assert_eq!(slice("héllo wörld", 1, 4), "éll");
    assert_eq!(slice("héllo wörld", 6, 11), "wörld");
    assert_eq!(slice("abc", 0, 0), "");
    assert_eq!(slice("abc", 3, 3), "");
    assert_eq!(slice("abc", 0, 3), "abc");
}
