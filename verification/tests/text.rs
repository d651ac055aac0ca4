use lean_ctx::text::{
    file_name, join_strings, push_decimal, same_text, split_lines, split_within,
    trim_trailing_slashes,
};

#[test]
fn lines_end_like_those_of_the_standard_library() {
    for text in ["", "\n", "\n\n", "a", "a\n", "a\r\n", "a\r", "a\r\r\nb", "é\n\nü\r\n…", "\r\n"] {
        assert_eq!(split_lines(text), text.lines().collect::<Vec<_>>());
    }
}

#[test]
fn numbers_are_decimal() {
    for n in [0, 7, 10, 99, 100, 12345, usize::MAX] {
        let mut out = String::from("n=");
        push_decimal(&mut out, n);
        assert_eq!(out, format!("n={n}"));
    }
}

#[test]
fn strings_are_joined() {
    let parts: Vec<String> = vec!["a".to_string(), "".to_string(), "c".to_string()];
    assert_eq!(join_strings(&parts, ", "), "a, , c");
    assert_eq!(join_strings(&vec![], ", "), "");
}

#[test]
fn cuts_fall_between_characters() {
    let text = "aé…😀";
    for limit in 0..=text.len() {
        let mut at = limit;
        while !text.is_char_boundary(at) {
            at -= 1;
        }
        assert_eq!(split_within(text, limit), (&text[..at], &text[at..]));
    }
}

#[test]
fn slashes() {
    assert_eq!(trim_trailing_slashes("a/b//"), "a/b");
    assert_eq!(trim_trailing_slashes("//"), "");
    assert_eq!(file_name("a/b"), "b");
    assert_eq!(file_name("b"), "b");
    assert_eq!(file_name("a/"), "");
}

#[test]
fn texts_are_the_same_or_not() {
    assert!(same_text("é", "é"));
    assert!(!same_text("é", "e"));
    assert!(!same_text("a", "ab"));
}
