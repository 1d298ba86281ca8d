use person_server::text::{
    line_one, nth_word, parse_usize, piece_after, push_decimal, remove_all, split_lines, split_on,
    strip_leading, to_chars, trimmed,
};

fn chars(s: &str) -> Vec<char> {
    s.chars().collect()
}

fn all(items: &[&str]) -> Vec<Vec<char>> {
    items.iter().map(|s| chars(s)).collect()
}

#[test]
fn to_chars_keeps_every_character() {
    assert_eq!(to_chars("a\u{e9}\u{1F600}"), vec!['a', '\u{e9}', '\u{1F600}']);
    assert_eq!(to_chars(""), Vec::<char>::new());
}

#[test]
fn lines_end_at_line_feeds() {
    assert_eq!(split_lines(&chars("a\r\nb\nc")), all(&["a", "b", "c"]));
    assert_eq!(split_lines(&chars("a\n")), all(&["a"]));
    assert_eq!(split_lines(&chars("\n")), all(&[""]));
    assert_eq!(split_lines(&chars("")), all(&[]));
    assert_eq!(split_lines(&chars("a\n\nb")), all(&["a", "", "b"]));
}

#[test]
fn lines_keep_a_carriage_return_that_no_line_feed_follows() {
    assert_eq!(split_lines(&chars("a\rb\r")), all(&["a\rb\r"]));
    assert_eq!(split_lines(&chars("a\r\r\nb")), all(&["a\r", "b"]));
}

#[test]
fn lines_agree_with_the_standard_library() {
    for text in ["GET / HTTP/1.1\r\nHost: x\r\n\r\n", "a\r", "\r\n", "x\n\r\ny", "one"] {
        let expected: Vec<Vec<char>> = text.lines().map(|l| l.chars().collect()).collect();
        assert_eq!(split_lines(&chars(text)), expected);
    }
}

#[test]
fn first_line_of_a_text() {
    assert_eq!(line_one(&chars("GET / HTTP/1.1\r\nHost: x\r\n")), chars("GET / HTTP/1.1"));
    assert_eq!(line_one(&chars("")), chars(""));
}

#[test]
fn split_gives_one_piece_more_than_separators() {
    assert_eq!(split_on(&chars("a;b;;c"), ';'), all(&["a", "b", "", "c"]));
    assert_eq!(split_on(&chars(""), ';'), all(&[""]));
    assert_eq!(split_on(&chars(";"), ';'), all(&["", ""]));
    assert_eq!(split_on(&chars("abc"), ';'), all(&["abc"]));
}

#[test]
fn trim_drops_white_space_at_both_ends() {
    assert_eq!(trimmed(&chars("  a b \t\r\n")), chars("a b"));
    assert_eq!(trimmed(&chars(" \u{a0}\u{3000}x\u{2003}")), chars("x"));
    assert_eq!(trimmed(&chars("   ")), chars(""));
    assert_eq!(trimmed(&chars("")), chars(""));
    assert_eq!(trimmed(&chars("x")), chars("x"));
}

#[test]
fn trim_agrees_with_the_standard_library() {
    for code in 0u32..0x3100 {
        if let Some(c) = char::from_u32(code) {
            let text: String = [c, 'x', c].iter().collect();
            assert_eq!(trimmed(&chars(&text)), chars(text.trim()), "U+{:04X}", code);
        }
    }
}

#[test]
fn words_are_runs_without_white_space() {
    let line = chars("  GET   /person/A  HTTP/1.1 ");
    assert_eq!(nth_word(&line, 0), chars("GET"));
    assert_eq!(nth_word(&line, 1), chars("/person/A"));
    assert_eq!(nth_word(&line, 2), chars("HTTP/1.1"));
    assert_eq!(nth_word(&line, 3), chars(""));
    assert_eq!(nth_word(&chars(""), 0), chars(""));
}

#[test]
fn remove_all_takes_out_every_occurrence() {
    assert_eq!(remove_all(&chars("Cookie: a; Cookie: b"), &chars("Cookie: ")), chars("a; b"));
    assert_eq!(remove_all(&chars("aaa"), &chars("aa")), chars("a"));
    assert_eq!(remove_all(&chars("abc"), &chars("")), chars("abc"));
    assert_eq!(remove_all(&chars("abc"), &chars("x")), chars("abc"));
}

#[test]
fn strip_leading_drops_every_copy_at_the_start() {
    let prefix = chars("/person/");
    assert_eq!(strip_leading(&chars("/person/A"), &prefix), chars("A"));
    assert_eq!(strip_leading(&chars("/person//person/A"), &prefix), chars("A"));
    assert_eq!(strip_leading(&chars("/people/A"), &prefix), chars("/people/A"));
    assert_eq!(strip_leading(&chars("/person/"), &prefix), chars(""));
    assert_eq!(strip_leading(&chars("A/person/"), &prefix), chars("A/person/"));
}

#[test]
fn piece_after_the_first_separator() {
    let sep = chars(": ");
    assert_eq!(piece_after(&chars("Content-Length: 12"), &sep), Some(chars("12")));
    assert_eq!(piece_after(&chars("A: b: c"), &sep), Some(chars("b")));
    assert_eq!(piece_after(&chars("Content-Length:12"), &sep), None);
    assert_eq!(piece_after(&chars("A: "), &sep), Some(chars("")));
}

#[test]
fn parse_usize_reads_decimal_numerals() {
    assert_eq!(parse_usize(&chars("0")), Some(0));
    assert_eq!(parse_usize(&chars("42")), Some(42));
    assert_eq!(parse_usize(&chars("+42")), Some(42));
    assert_eq!(parse_usize(&chars("007")), Some(7));
    assert_eq!(parse_usize(&chars("")), None);
    assert_eq!(parse_usize(&chars("+")), None);
    assert_eq!(parse_usize(&chars("-1")), None);
    assert_eq!(parse_usize(&chars("1 ")), None);
    assert_eq!(parse_usize(&chars("1_0")), None);
    assert_eq!(parse_usize(&chars("12a")), None);
    assert_eq!(parse_usize(&chars("++1")), None);
}

#[test]
fn parse_usize_stops_at_the_word_size() {
    let max = usize::MAX.to_string();
    assert_eq!(parse_usize(&chars(&max)), Some(usize::MAX));
    let mut over = max.clone();
    over.push('0');
    assert_eq!(parse_usize(&chars(&over)), None);
    assert_eq!(parse_usize(&chars("340282366920938463463374607431768211456")), None);
    assert_eq!(parse_usize(&chars("18446744073709551616")), "18446744073709551616".parse::<usize>().ok());
}

#[test]
fn parse_usize_agrees_with_the_standard_library() {
    for text in ["0", "+0", "-0", "12", " 12", "1e3", "0x10", "99999999999999999999999", "+", ""] {
        assert_eq!(parse_usize(&chars(text)), text.parse::<usize>().ok(), "{:?}", text);
    }
}

#[test]
fn push_decimal_writes_without_leading_zeros() {
    let mut out = chars("n=");
    push_decimal(&mut out, 0);
    assert_eq!(out, chars("n=0"));
    let mut out = Vec::new();
    push_decimal(&mut out, 1234567890);
    assert_eq!(out, chars("1234567890"));
    let mut out = Vec::new();
    push_decimal(&mut out, u64::MAX);
    assert_eq!(out, chars("18446744073709551615"));
}
