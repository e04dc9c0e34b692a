use kvdb::words::{is_blank, join, split_words, trim};

#[test]
fn split_words_cuts_at_spaces_and_tabs() {
    assert_eq!(split_words("GET MY_KEY"), vec!["GET", "MY_KEY"]);
    assert_eq!(split_words("a\tb c"), vec!["a", "b", "c"]);
    assert_eq!(split_words("one"), vec!["one"]);
}

#[test]
fn split_words_of_nothing_is_nothing() {
    assert_eq!(split_words(""), Vec::<&str>::new());
    assert_eq!(split_words(" "), Vec::<&str>::new());
    assert_eq!(split_words("\t \t"), Vec::<&str>::new());
}

#[test]
fn split_words_has_no_empty_word() {
    assert_eq!(split_words("  a   b\t\tc  "), vec!["a", "b", "c"]);
    for line in ["", " ", "x", " x", "x ", "a  b", "\ta \t b\t"] {
        for word in split_words(line) {
            assert!(!word.is_empty());
            assert!(!word.contains(' ') && !word.contains('\t'));
        }
    }
}

#[test]
fn split_words_cuts_at_no_other_whitespace() {
    assert_eq!(split_words("a\nb c\u{a0}d"), vec!["a\nb", "c\u{a0}d"]);
}

#[test]
fn split_words_keeps_characters_of_any_width() {
    assert_eq!(
        split_words("\u{e9}t\u{e9} \u{4e2d}\u{6587}\t\u{1f600}x"),
        vec!["\u{e9}t\u{e9}", "\u{4e2d}\u{6587}", "\u{1f600}x"]
    );
}

#[test]
fn join_puts_one_space_between_words() {
    let words = vec!["SET", "KEY1", "VALUE1", "VALUE2", "VALUE3"];
    assert_eq!(join(&words), "SET KEY1 VALUE1 VALUE2 VALUE3");
    assert_eq!(join(&words[2..]), "VALUE1 VALUE2 VALUE3");
    assert_eq!(join(&words[4..]), "VALUE3");
    assert_eq!(join(&words[5..]), "");
    assert_eq!(join(&[]), "");
    assert_eq!(join(&["a	b", " c"]), "a	b  c");
}

#[test]
fn join_undoes_split_on_single_spaces() {
    for line in ["a", "a b", "GET KEY1 KEY2", "x y z w"] {
        assert_eq!(join(&split_words(line)), line);
    }
}

#[test]
fn trim_drops_whitespace_at_both_ends() {
    assert_eq!(trim("  a b  "), "a b");
    assert_eq!(trim("\n\ta\r\n"), "a");
    assert_eq!(trim("a"), "a");
    assert_eq!(trim(""), "");
    assert_eq!(trim(" \t\n"), "");
    assert_eq!(trim("\u{3000}\u{e9} \u{e9}\u{2003}"), "\u{e9} \u{e9}");
}

#[test]
fn trim_agrees_with_the_standard_trim() {
    for s in [
        "", " ", "a", " a", "a ", " a ", "\u{85}a\u{85}", "\u{1680}a b\u{205f}",
        "\u{200b}a\u{200b}", "\u{feff}a", "\u{2028}\u{2029}x\u{202f}", "\u{b}\u{c}x\u{1c}",
    ] {
        assert_eq!(trim(s), s.trim(), "{:?}", s);
    }
}

#[test]
fn is_blank_is_unicode_white_space() {
    for code in 0..=0x10FFFFu32 {
        if let Some(c) = char::from_u32(code) {
            assert_eq!(is_blank(c), c.is_whitespace(), "U+{:04X}", code);
        }
    }
}
