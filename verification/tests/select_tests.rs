use poetry::select::pick;
use poetry::{Poetry, PoetryError};

const THREE: &str = "一|唐|甲|句一\n二|宋|乙|句二\r\n三|元|丙|句三|句四\n";

#[test]
fn random_of_an_empty_corpus_fails() {
    for _ in 0..20 {
        assert_eq!(Poetry::random(""), Err(PoetryError::DegenerateCorpus));
    }
}

#[test]
fn random_of_one_line_is_that_line() {
    for _ in 0..20 {
        let p = Poetry::random("静夜思|唐|李白|床前明月光，疑是地上霜。\r\n").unwrap();
        assert_eq!(p.to_line(), "静夜思|唐|李白|床前明月光，疑是地上霜。");
    }
}

#[test]
fn random_visits_every_line() {
    let lines = poetry::corpus::lines(THREE);
    let mut seen = vec![0usize; lines.len()];
    for _ in 0..600 {
        let p = Poetry::random(THREE).unwrap();
        let at = lines.iter().position(|l| *l == p.to_line()).unwrap();
        seen[at] += 1;
    }
    for count in seen {
        assert!(count > 100);
    }
}

#[test]
fn random_reports_a_line_that_is_no_record() {
    assert_eq!(Poetry::random("only a title\n"), Err(PoetryError::MalformedRecord));
    assert_eq!(Poetry::random("\n"), Err(PoetryError::MalformedRecord));
}

#[test]
fn pick_reads_the_line_at_the_index() {
    let lines = poetry::corpus::lines(THREE);
    assert_eq!(pick(&lines, 0).unwrap().get_title(), "一");
    assert_eq!(pick(&lines, 1).unwrap().get_author(), "乙");
    assert_eq!(pick(&lines, 2).unwrap().get_sentences(), vec!["句三", "句四"]);
}

#[test]
fn pick_fails_without_lines_or_on_a_short_line() {
    let none: Vec<String> = Vec::new();
    assert_eq!(pick(&none, 0), Err(PoetryError::DegenerateCorpus));
    let short = vec!["a|b".to_string()];
    assert_eq!(pick(&short, 0), Err(PoetryError::MalformedRecord));
}
