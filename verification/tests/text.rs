use phantom::text::char_prefix;

#[test]
fn prefixes_cut_between_characters() {
    assert_eq!(char_prefix("hello world", 5), "hello");
    assert_eq!(char_prefix("short", 80), "short");
    assert_eq!(char_prefix("λ→🚨 regime", 3), "λ→🚨");
    assert_eq!(char_prefix("", 3), "");
    assert_eq!(char_prefix("abc", 0), "");
}
