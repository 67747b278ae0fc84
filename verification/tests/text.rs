use ai_jail::path::{path_display, path_join};
use ai_jail::text::{is_whitespace, split_text};

#[test]
fn white_space_is_that_of_char() {
    for c in '\0'..=char::MAX {
        assert_eq!(is_whitespace(c), c.is_whitespace(), "{c:?}");
    }
}

#[test]
fn split_text_agrees_with_split() {
    for text in ["", ":", "a", "a:b", ":a::b:", "\u{e9}:\u{1f600}"] {
        let expected: Vec<&str> = text.split(':').collect();
        assert_eq!(split_text(text, ':'), expected);
    }
}

#[test]
fn paths_are_joined_with_one_slash() {
    assert_eq!(path_join(b"/a", b"b"), b"/a/b".to_vec());
    assert_eq!(path_join(b"/a/", b"b"), b"/a/b".to_vec());
    assert_eq!(path_join(b"", b"b"), b"b".to_vec());
}

#[test]
fn paths_are_displayed() {
    assert_eq!(path_display("/caf\u{e9}".as_bytes()), "/caf\u{e9}");
    assert_eq!(path_display(b"/caf\xe9"), "/caf\u{fffd}");
}
