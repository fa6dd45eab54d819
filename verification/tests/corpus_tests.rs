use poetry::corpus::{lines, normalize};

#[test]
fn lines_end_at_line_feeds() {
    assert_eq!(lines("a\nb\n"), vec!["a", "b"]);
    assert_eq!(lines("a\nb"), vec!["a", "b"]);
    assert_eq!(lines("a"), vec!["a"]);
}

#[test]
fn lines_of_an_empty_corpus_are_none() {
    assert!(lines("").is_empty());
}

#[test]
fn lines_keep_empty_lines_but_the_last() {
    assert_eq!(lines("\n"), vec![""]);
    assert_eq!(lines("a\n\nb"), vec!["a", "", "b"]);
    assert_eq!(lines("\n\n"), vec!["", ""]);
}

#[test]
fn lines_lose_trailing_carriage_returns() {
    assert_eq!(lines("a\r\nb\r\n"), vec!["a", "b"]);
    assert_eq!(lines("a\r\r\nb"), vec!["a", "b"]);
    assert_eq!(lines("a\rb\r\n"), vec!["a\rb"]);
    assert_eq!(lines("\r"), vec![""]);
}

#[test]
fn lines_agree_with_the_standard_library() {
    for corpus in ["", "\n", "a", "a\n", "a\r\n\r\nb\r", "x|y|z\n\nq\n\n", "\r\n\r\n"] {
        let expected: Vec<&str> =
            corpus.split_terminator('\n').map(|l| l.trim_end_matches("\r")).collect();
        assert_eq!(lines(corpus), expected);
    }
}

#[test]
fn normalize_joins_the_lines_with_line_feeds() {
    assert_eq!(normalize("a\r\nb\r\n"), "a\nb");
    assert_eq!(normalize("a\nb"), "a\nb");
    assert_eq!(normalize("a\r\r\nb\r"), "a\nb");
    assert_eq!(normalize("a"), "a");
    assert_eq!(normalize("a\rb\n"), "a\rb");
}

#[test]
fn normalize_of_few_lines() {
    assert_eq!(normalize(""), "");
    assert_eq!(normalize("\n"), "");
    assert_eq!(normalize("\r\n"), "");
    assert_eq!(normalize("a\n\n"), "a\n");
    assert_eq!(normalize("\n\nb"), "\n\nb");
}

#[test]
fn normalize_splits_back_into_the_lines() {
    for corpus in ["a\r\nb\r\n", "x|y|z\n\nq\r\n\n", "静夜思|唐|李白|霜。\r\n春晓|唐|孟浩然|鸟。"] {
        let pieces: Vec<String> = normalize(corpus).split('\n').map(|p| p.to_string()).collect();
        assert_eq!(pieces, lines(corpus));
    }
}
