use story_text::text::{is_whitespace, number, pieces, to_chars, trimmed};

#[test]
fn to_chars_counts_code_points() {
    assert_eq!(to_chars("메세지"), vec!['메', '세', '지']);
    assert_eq!(to_chars(""), Vec::<char>::new());
}

#[test]
fn white_space_is_the_unicode_property() {
    for c in [' ', '\t', '\n', '\r', '\u{0B}', '\u{0C}', '\u{85}', '\u{A0}', '\u{1680}',
        '\u{2000}', '\u{200A}', '\u{2028}', '\u{2029}', '\u{202F}', '\u{205F}', '\u{3000}']
    {
        assert!(is_whitespace(c));
    }
    for c in ['a', '0', '\u{200B}', '\u{180E}', '\u{FEFF}', '\u{08}', '\u{0E}'] {
        assert!(!is_whitespace(c));
    }
}

#[test]
fn white_space_agrees_with_the_standard_library() {
    for n in 0..0x11_0000u32 {
        if let Some(c) = char::from_u32(n) {
            assert_eq!(is_whitespace(c), c.is_whitespace());
        }
    }
}

#[test]
fn trimmed_cuts_both_ends_only() {
    assert_eq!(trimmed("  a b \t"), "a b");
    assert_eq!(trimmed("a"), "a");
    assert_eq!(trimmed(" \n "), "");
    assert_eq!(trimmed(""), "");
    assert_eq!(trimmed("\u{3000}메 세\u{A0}"), "메 세");
}

#[test]
fn trimmed_agrees_with_the_standard_library() {
    for text in ["", " ", "x", " x", "x ", "\t x y \r\n", "\u{2003}x\u{2003}", "\u{200B}x\u{200B}"] {
        assert_eq!(trimmed(text), text.trim());
    }
}

#[test]
fn pieces_are_cut_at_every_occurrence() {
    assert_eq!(pieces("a|b||c", "|"), vec!["a", "b", "", "c"]);
    assert_eq!(pieces("|", "|"), vec!["", ""]);
    assert_eq!(pieces("", "|"), vec![""]);
    assert_eq!(pieces("abc", "|"), vec!["abc"]);
    assert_eq!(pieces("a{{b{{{c", "{{"), vec!["a", "b", "{c"]);
    assert_eq!(pieces("{{{{", "{{"), vec!["", "", ""]);
    assert_eq!(pieces("메|세", "|"), vec!["메", "세"]);
    assert_eq!(pieces("aXbxaXb", "aXb"), vec!["", "x", ""]);
    assert_eq!(pieces("aaa", "aa"), vec!["", "a"]);
}

#[test]
fn pieces_of_an_empty_pattern() {
    assert_eq!(pieces("abc", ""), vec!["abc"]);
    assert_eq!(pieces("", ""), vec![""]);
}

#[test]
fn pieces_agree_with_the_standard_library() {
    for text in ["", "a", "}}", "}}}", "a}}b}}}}c}", "}a}}", "x}y}}z", "메}}세}}"] {
        let expected: Vec<String> = text.split("}}").map(|s| s.to_owned()).collect();
        assert_eq!(pieces(text, "}}"), expected);
    }
}

#[test]
fn number_reads_what_the_standard_library_reads() {
    for text in [
        "0", "7", "42", "+42", "007", "4294967295", "4294967296", "42949672950", "", "+", "-",
        "-0", "++1", "1+", "12a", "a12", " 1", "1 ", "1_000", "0x10", "１２",
        "00000000000000000000000000000000000001",
    ] {
        assert_eq!(number(text), text.parse::<u32>().ok(), "{:?}", text);
    }
}
