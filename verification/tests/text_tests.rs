use poetry::text::{chars_of, split_text, string_of, strip_end};

#[test]
fn split_text_cuts_at_each_separator() {
    assert_eq!(split_text("a|b|c", '|'), vec!["a", "b", "c"]);
    assert_eq!(split_text("", '|'), vec![""]);
    assert_eq!(split_text("|", '|'), vec!["", ""]);
    assert_eq!(split_text("|a||", '|'), vec!["", "a", "", ""]);
    assert_eq!(split_text("床前|明月", '|'), vec!["床前", "明月"]);
    assert_eq!(split_text("a|b", ','), vec!["a|b"]);
}

#[test]
fn strip_end_removes_the_whole_run() {
    assert_eq!(strip_end("abc\r", '\r'), "abc");
    assert_eq!(strip_end("abc\r\r", '\r'), "abc");
    assert_eq!(strip_end("a\rb", '\r'), "a\rb");
    assert_eq!(strip_end("\r", '\r'), "");
    assert_eq!(strip_end("", '\r'), "");
    assert_eq!(strip_end("\rabc", '\r'), "\rabc");
}

#[test]
fn chars_of_lists_every_character() {
    assert_eq!(chars_of("a月b"), vec!['a', '月', 'b']);
    assert!(chars_of("").is_empty());
}

#[test]
fn string_of_takes_a_prefix() {
    let chars = vec!['床', '前', 'x'];
    assert_eq!(string_of(&chars, 0), "");
    assert_eq!(string_of(&chars, 2), "床前");
    assert_eq!(string_of(&chars, 3), "床前x");
}
