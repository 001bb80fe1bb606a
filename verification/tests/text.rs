use phoebe_rs::text::{
    chars_of, fields, is_white_space, join, lines, same_text, text_of, trim, words,
};

fn samples() -> Vec<&'static str> {
    vec![
        "",
        "\n",
        "\r\n",
        "a",
        "a\n",
        "a\nb",
        "a\r\nb\r\n",
        "a\r",
        "\r\r\n",
        "a\n\nb\n\n",
        "  a b\t c  ",
        " \u{a0}x\u{3000}y ",
        "a,b , c,",
        ",",
        "300.0 0.1\n# note\n",
        "\u{2028}line\u{85}end",
    ]
}

#[test]
fn white_space_is_the_unicode_property() {
    for u in 0..=0x10ffffu32 {
        if let Some(c) = char::from_u32(u) {
            assert_eq!(is_white_space(c), c.is_whitespace(), "{u:x}");
        }
    }
}

#[test]
fn lines_are_those_of_the_standard_library() {
    for s in samples() {
        let want: Vec<String> = s.lines().map(|l| l.to_string()).collect();
        assert_eq!(lines(s), want, "{s:?}");
    }
}

#[test]
fn words_are_those_of_the_standard_library() {
    for s in samples() {
        let want: Vec<String> = s.split_whitespace().map(|l| l.to_string()).collect();
        assert_eq!(words(s), want, "{s:?}");
    }
}

#[test]
fn trimming_is_that_of_the_standard_library() {
    for s in samples() {
        assert_eq!(trim(s), s.trim(), "{s:?}");
    }
}

#[test]
fn fields_are_trimmed_pieces_between_commas() {
    for s in samples() {
        let want: Vec<String> = s.split(',').map(|f| f.trim().to_string()).collect();
        assert_eq!(fields(s), want, "{s:?}");
    }
}

#[test]
fn joining_puts_one_space_between() {
    let list: Vec<String> = vec!["1".to_string(), "".to_string(), "x y".to_string()];
    assert_eq!(join(&list), "1  x y");
    assert_eq!(join(&Vec::new()), "");
    assert_eq!(join(&vec!["one".to_string()]), "one");
}

#[test]
fn joined_words_come_apart_again() {
    let list: Vec<String> = vec!["1.000000".to_string(), "NaN".to_string(), "-0.5".to_string()];
    assert_eq!(words(&join(&list)), list);
    assert!(words(&join(&Vec::new())).is_empty());
}

#[test]
fn characters_come_apart_and_together_again() {
    let s = "a\u{e9}\u{1f600}z";
    let chars = chars_of(s);
    assert_eq!(chars, vec!['a', '\u{e9}', '\u{1f600}', 'z']);
    assert_eq!(text_of(&chars, 1, 3), "\u{e9}\u{1f600}");
    assert_eq!(text_of(&chars, 2, 2), "");
    assert!(same_text("ab", "ab"));
    assert!(!same_text("ab", "abc"));
}

#[test]
fn lines_of_a_longer_text_append() {
    let a = "one\r\ntwo\n";
    let b = "three\nfour";
    let mut want = lines(a);
    want.extend(lines(b));
    assert_eq!(lines(&format!("{a}{b}")), want);
}
