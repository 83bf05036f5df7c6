use neatify::text::{
    char_is_whitespace, push_range, push_spaces, push_text, to_chars, to_lines, to_logical_lines,
    trim_bounds, trim_end_len, trim_start_len,
};

fn chars(s: &str) -> Vec<char> {
    s.chars().collect()
}

fn strings(lines: Vec<Vec<char>>) -> Vec<String> {
    lines.into_iter().map(|l| l.into_iter().collect()).collect()
}

#[test]
fn whitespace_is_what_unicode_calls_white_space() {
    let mut u: u32 = 0;
    while u <= 0x10FFFF {
        if let Some(c) = char::from_u32(u) {
            assert_eq!(char_is_whitespace(c), c.is_whitespace(), "U+{:04X}", u);
        }
        u += 1;
    }
}

#[test]
fn to_chars_lists_every_character() {
    assert_eq!(to_chars("a\u{e9}\u{3000}\n"), vec!['a', '\u{e9}', '\u{3000}', '\n']);
    assert_eq!(to_chars(""), Vec::<char>::new());
}

#[test]
fn push_range_appends_the_slice() {
    let mut out = String::from("x");
    push_range(&mut out, &chars("hello"), 1, 4);
    assert_eq!(out, "xell");
    push_range(&mut out, &chars("hello"), 2, 2);
    assert_eq!(out, "xell");
}

#[test]
fn push_text_and_spaces_append() {
    let mut out = String::from("a");
    push_text(&mut out, "bc");
    push_spaces(&mut out, 3);
    push_spaces(&mut out, 0);
    assert_eq!(out, "abc   ");
}

#[test]
fn trim_lengths_match_std() {
    for s in ["", " ", "a", "  a  ", "\t a\u{a0}", "\u{3000}\u{3000}", " a b ", "a \r"] {
        let v = chars(s);
        let end = trim_end_len(&v);
        let start = trim_start_len(&v);
        assert_eq!(v[..end].iter().collect::<String>(), s.trim_end());
        assert_eq!(v[start..].iter().collect::<String>(), s.trim_start());
        let (from, to) = trim_bounds(&v);
        assert_eq!(v[from..to].iter().collect::<String>(), s.trim());
    }
}

#[test]
fn lines_are_the_pieces_between_line_feeds() {
    assert_eq!(strings(to_lines(&chars(""))), vec![""]);
    assert_eq!(strings(to_lines(&chars("a"))), vec!["a"]);
    assert_eq!(strings(to_lines(&chars("a\n"))), vec!["a", ""]);
    assert_eq!(strings(to_lines(&chars("a\r\n\nb"))), vec!["a\r", "", "b"]);
}

#[test]
fn logical_lines_end_at_lf_or_crlf() {
    assert_eq!(strings(to_logical_lines(&chars(""))), Vec::<String>::new());
    assert_eq!(strings(to_logical_lines(&chars("\n"))), vec![""]);
    assert_eq!(strings(to_logical_lines(&chars("a\n"))), vec!["a"]);
    assert_eq!(strings(to_logical_lines(&chars("a\r\nb\r"))), vec!["a", "b\r"]);
    assert_eq!(strings(to_logical_lines(&chars("a\r\r\n\nb"))), vec!["a\r", "", "b"]);
}

#[test]
fn splitting_matches_std_on_every_short_text() {
    let alphabet = ['a', ' ', '\n', '\r'];
    let mut texts: Vec<String> = vec![String::new()];
    let mut from = 0;
    for _ in 0..6 {
        let upto = texts.len();
        for i in from..upto {
            for c in alphabet {
                let mut t = texts[i].clone();
                t.push(c);
                texts.push(t);
            }
        }
        from = upto;
    }
    for t in &texts {
        let v = chars(t);
        let split: Vec<String> = t.split('\n').map(|l| l.to_string()).collect();
        assert_eq!(strings(to_lines(&v)), split, "{:?}", t);
        let lines: Vec<String> = t.lines().map(|l| l.to_string()).collect();
        assert_eq!(strings(to_logical_lines(&v)), lines, "{:?}", t);
    }
}
