use influx_bridge::text::{find_char, split};

#[test]
fn split_agrees_with_the_standard_library() {
    for text in ["", "/", "//", "a", "a/b", "/a", "a/", "a//b", "bucket/f/measurement.field_key", "\u{00e9}/\u{6e29}"] {
        let expected: Vec<String> = text.split('/').map(|piece| piece.to_string()).collect();
        assert_eq!(split(text, '/'), expected, "{:?}", text);
    }
}

#[test]
fn split_of_text_without_separator_is_the_text() {
    assert_eq!(split("measurement", '.'), vec!["measurement".to_string()]);
    assert_eq!(split("", '.'), vec!["".to_string()]);
}

#[test]
fn find_char_counts_characters() {
    assert_eq!(find_char("a=b=c", '='), Some(1));
    assert_eq!(find_char("=", '='), Some(0));
    assert_eq!(find_char("\u{00e9}\u{00e9}=", '='), Some(2));
    assert_eq!(find_char("abc", '='), None);
    assert_eq!(find_char("", '='), None);
}
