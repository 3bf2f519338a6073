use rustcast::text::{is_blank, is_white_space};

#[test]
fn white_space_is_that_of_the_standard_library() {
    for c in '\0'..=char::MAX {
        assert_eq!(is_white_space(c), c.is_whitespace(), "{c:?}");
    }
}

#[test]
fn blank_texts_trim_to_nothing() {
    for text in ["", " ", "\t\n ", "\u{3000}\u{85}", "a", " a ", "\u{200b}"] {
        assert_eq!(is_blank(text), text.trim().is_empty(), "{text:?}");
    }
}
