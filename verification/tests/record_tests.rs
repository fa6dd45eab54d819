use poetry::{Poetry, PoetryError};

const QUIET_NIGHT: &str = "静夜思|唐|李白|床前明月光，疑是地上霜。";
const QIUPU: &str = "秋浦歌·炉火照天地|唐|李白|炉火照天地，红星乱紫烟。|赧郎明月夜，歌曲动寒川。";

#[test]
fn parse_reads_the_four_fields() {
    let p = Poetry::parse(QUIET_NIGHT).unwrap();
    assert_eq!(p.get_title(), "静夜思");
    assert_eq!(p.get_dynasty(), "唐");
    assert_eq!(p.get_author(), "李白");
    assert_eq!(p.get_sentences(), vec!["床前明月光，疑是地上霜。"]);
}

#[test]
fn parse_keeps_the_order_of_sentences() {
    let p = Poetry::parse(QIUPU).unwrap();
    assert_eq!(p.get_title(), "秋浦歌·炉火照天地");
    assert_eq!(
        p.get_sentences(),
        vec!["炉火照天地，红星乱紫烟。", "赧郎明月夜，歌曲动寒川。"]
    );
}

#[test]
fn parse_accepts_three_fields_without_sentences() {
    let p = Poetry::parse("a|b|c").unwrap();
    assert_eq!(p.get_title(), "a");
    assert_eq!(p.get_dynasty(), "b");
    assert_eq!(p.get_author(), "c");
    assert!(p.get_sentences().is_empty());
}

#[test]
fn parse_keeps_empty_fields() {
    let p = Poetry::parse("a||c|").unwrap();
    assert_eq!(p.get_title(), "a");
    assert_eq!(p.get_dynasty(), "");
    assert_eq!(p.get_author(), "c");
    assert_eq!(p.get_sentences(), vec![""]);
    let q = Poetry::parse("||").unwrap();
    assert_eq!(q.get_title(), "");
    assert_eq!(q.get_dynasty(), "");
    assert_eq!(q.get_author(), "");
    assert!(q.get_sentences().is_empty());
}

#[test]
fn parse_rejects_fewer_than_three_fields() {
    assert_eq!(Poetry::parse(""), Err(PoetryError::MalformedRecord));
    assert_eq!(Poetry::parse("静夜思"), Err(PoetryError::MalformedRecord));
    assert_eq!(Poetry::parse("静夜思|唐"), Err(PoetryError::MalformedRecord));
    assert_eq!(Poetry::parse("|"), Err(PoetryError::MalformedRecord));
}

#[test]
fn to_line_reproduces_the_parsed_line() {
    for line in [QUIET_NIGHT, QIUPU, "a|b|c", "a||c|", "||", "|||", "a|b|c|d|e|f|"] {
        let p = Poetry::parse(line).unwrap();
        assert_eq!(p.to_line(), line);
    }
}

#[test]
fn parse_reproduces_the_written_record() {
    let p = Poetry::parse(QIUPU).unwrap();
    let again = Poetry::parse(&p.to_line()).unwrap();
    assert_eq!(again, p);
}

#[test]
fn to_text_puts_each_part_on_its_line() {
    let p = Poetry::parse(QIUPU).unwrap();
    assert_eq!(
        p.to_text(),
        "秋浦歌·炉火照天地\r\n唐.李白\r\n炉火照天地，红星乱紫烟。\r\n赧郎明月夜，歌曲动寒川。"
    );
    let q = Poetry::parse("a|b|c").unwrap();
    assert_eq!(q.to_text(), "a\r\nb.c");
}

#[test]
fn getters_return_what_was_parsed() {
    let p = Poetry::parse("t|d|a|s1|s2|s3").unwrap();
    assert_eq!(p.get_title(), "t");
    assert_eq!(p.get_author(), "a");
    assert_eq!(p.get_dynasty(), "d");
    assert_eq!(p.get_sentences(), vec!["s1", "s2", "s3"]);
}

#[test]
fn clone_is_the_same_record() {
    let p = Poetry::parse(QIUPU).unwrap();
    let q = p.clone();
    assert_eq!(q, p);
    assert_eq!(q.to_line(), QIUPU);
}
