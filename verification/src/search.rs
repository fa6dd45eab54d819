//! Running a pattern over the corpus in normal form and reading the matches
//! as records.

use vstd::prelude::*;
use regex::Regex;
use crate::corpus::{corpus_lines, normalize, normalized};
use crate::error::PoetryError;
use crate::pattern::{build, option_view, pattern_text};
use crate::record::{parse_line, Poetry, PoetryView};
use crate::text::texts;

verus! {

/// A compiled expression of the `regex` crate: made from a pattern, then
/// handed to the search, never looked into.
#[verifier::external_type_specification]
#[verifier::external_body]
pub struct ExRegex(regex::Regex);

/// Why the `regex` crate refused a pattern. It is not looked into: every
/// refusal becomes `PatternCompileError`.
#[verifier::external_type_specification]
#[verifier::external_body]
pub struct ExRegexError(regex::Error);

/// Whether `Regex::new` of the `regex` crate compiles the pattern.
pub uninterp spec fn regex_accepts(pattern: Seq<char>) -> bool;

/// The pattern that a compiled expression was made from.
pub uninterp spec fn regex_source(re: Regex) -> Seq<char>;

/// Whether a compiled expression has the options that `Regex::new` gives
/// it. One made in another way may match otherwise with the same pattern.
pub uninterp spec fn regex_plain(re: Regex) -> bool;

/// The texts of the successive non-overlapping matches in the haystack of
/// the pattern as `Regex::new` compiles it, from left to right, as the
/// `regex` crate finds them.
pub uninterp spec fn regex_matches(pattern: Seq<char>, haystack: Seq<char>) -> Seq<Seq<char>>;

/// `Regex::new` of the `regex` crate compiles a pattern, or returns an error
/// for one that is invalid or too large. Whether it succeeds depends on the
/// pattern alone; the expression it returns keeps the pattern it was given
/// and has the crate's own options.
pub assume_specification[ Regex::new ](re: &str) -> (r: Result<Regex, regex::Error>)
    ensures
        r is Ok <==> regex_accepts(re@),
        r is Ok ==> regex_source(r->Ok_0) == re@ && regex_plain(r->Ok_0),
;

/// `Regex::find_iter` of the `regex` crate, with each match copied out as the
/// part of the haystack that it covers: the matches of the expression's
/// pattern in the haystack, in the order in which they are found. This is
/// claimed only of an expression that `Regex::new` made.
#[verifier::external_body]
fn find_all(re: &Regex, haystack: &str) -> (found: Vec<String>)
    requires
        regex_plain(*re),
    ensures
        texts(found@) == regex_matches(regex_source(*re), haystack@),
{
    re.find_iter(haystack).map(|m| m.as_str().to_string()).collect()
}

/// The views of a list of records.
pub open spec fn views(v: Seq<Poetry>) -> Seq<PoetryView> {
    v.map_values(|p: Poetry| p@)
}

/// The outcome of an operation that yields a list of records, over views.
pub open spec fn list_view(r: Result<Vec<Poetry>, PoetryError>) -> Result<
    Seq<PoetryView>,
    PoetryError,
> {
    match r {
        Ok(v) => Ok(views(v@)),
        Err(e) => Err(e),
    }
}

/// True when every line encodes a record.
pub open spec fn all_parse(lines: Seq<Seq<char>>) -> bool {
    forall|i: int| 0 <= i < lines.len() ==> (#[trigger] parse_line(lines[i])) is Some
}

/// What reading a list of lines returns: the record of each line, in the
/// order of the lines, or `MalformedRecord` where some line encodes none.
pub open spec fn parse_all_outcome(lines: Seq<Seq<char>>) -> Result<Seq<PoetryView>, PoetryError> {
    if all_parse(lines) {
        Ok(lines.map_values(|l: Seq<char>| parse_line(l)->Some_0))
    } else {
        Err(PoetryError::MalformedRecord)
    }
}

/// What searching a text returns: `PatternCompileError` for a pattern that
/// does not compile, else the outcome of reading its matches in the text.
pub open spec fn search_outcome(pattern: Seq<char>, corpus: Seq<char>) -> Result<
    Seq<PoetryView>,
    PoetryError,
> {
    if regex_accepts(pattern) {
        parse_all_outcome(regex_matches(pattern, corpus))
    } else {
        Err(PoetryError::PatternCompileError)
    }
}

/// What a lookup in a text returns: the outcome of searching the text with
/// the pattern for the filters.
pub open spec fn find_outcome(
    corpus: Seq<char>,
    title: Option<Seq<char>>,
    dynasty: Option<Seq<char>>,
    author: Option<Seq<char>>,
    sentence: Option<Seq<char>>,
) -> Result<Seq<PoetryView>, PoetryError> {
    search_outcome(pattern_text(title, dynasty, author, sentence), corpus)
}

/// Reads each line as a record, in order.
pub fn parse_all(lines: &Vec<String>) -> (r: Result<Vec<Poetry>, PoetryError>)
    ensures
        list_view(r) == parse_all_outcome(texts(lines@)),
        r is Ok <==> all_parse(texts(lines@)),
        r is Ok ==> r->Ok_0.len() == lines.len(),
{
    let mut out: Vec<Poetry> = Vec::new();
    let mut i: usize = 0;
    while i < lines.len()
        invariant
            i <= lines.len(),
            all_parse(texts(lines@).take(i as int)),
            views(out@) == texts(lines@).take(i as int).map_values(
                |l: Seq<char>| parse_line(l)->Some_0,
            ),
        decreases lines.len() - i,
    {
        let ghost before = out@;
        match Poetry::parse(lines[i].as_str()) {
            Ok(p) => {
                out.push(p);
                i += 1;
                assert(views(out@) =~= views(before).push(p@));
                assert(views(out@) =~= texts(lines@).take(i as int).map_values(
                    |l: Seq<char>| parse_line(l)->Some_0,
                ));
            },
            Err(e) => {
                assert(parse_line(texts(lines@)[i as int]) is None);
                return Err(e);
            },
        }
    }
    assert(texts(lines@).take(i as int) =~= texts(lines@));
    Ok(out)
}

/// Finds the matches of `pattern` in the normal form of `corpus` and reads
/// each as a record. As the normal form has no carriage return at the end of
/// a line, no record read from a whole line ends in one.
pub fn search(pattern: &str, corpus: &str) -> (r: Result<Vec<Poetry>, PoetryError>)
    ensures
        list_view(r) == search_outcome(pattern@, normalized(corpus@)),
        (r is Err && r->Err_0 == PoetryError::PatternCompileError) <==> !regex_accepts(pattern@),
        (r is Err && r->Err_0 == PoetryError::MalformedRecord) <==> regex_accepts(pattern@)
            && !all_parse(regex_matches(pattern@, normalized(corpus@))),
{
    match Regex::new(pattern) {
        Ok(re) => {
            let text = normalize(corpus);
            let found = find_all(&re, text.as_str());
            parse_all(&found)
        },
        Err(_) => Err(PoetryError::PatternCompileError),
    }
}

impl Poetry {
    /// Looks up the records of `corpus` that the pattern for the filters
    /// matches, in corpus order. The corpus is searched in its normal form.
    /// An absent filter adds no text to the pattern.
    pub fn find(
        corpus: &str,
        title: Option<&str>,
        dynasty: Option<&str>,
        author: Option<&str>,
        sentence: Option<&str>,
    ) -> (r: Result<Vec<Poetry>, PoetryError>)
        ensures
            list_view(r) == find_outcome(
                normalized(corpus@),
                option_view(title),
                option_view(dynasty),
                option_view(author),
                option_view(sentence),
            ),
    {
        let content = build(title, dynasty, author, sentence);
        search(content.as_str(), corpus)
    }
}

/// Lookups with the same filters over the same corpus have the same outcome:
/// the same records in the same order, or the same error.
pub proof fn lemma_find_repeatable(
    corpus: Seq<char>,
    title: Option<Seq<char>>,
    dynasty: Option<Seq<char>>,
    author: Option<Seq<char>>,
    sentence: Option<Seq<char>>,
    first: Result<Vec<Poetry>, PoetryError>,
    second: Result<Vec<Poetry>, PoetryError>,
)
    requires
        list_view(first) == find_outcome(normalized(corpus), title, dynasty, author, sentence),
        list_view(second) == find_outcome(normalized(corpus), title, dynasty, author, sentence),
    ensures
        list_view(first) == list_view(second),
        first is Ok ==> second is Ok && views(first->Ok_0@) == views(second->Ok_0@),
        first is Err ==> second == first,
{
}

/// A search that succeeds has one record for each match, in the order of
/// the matches, and each is the record that its match encodes.
pub proof fn lemma_search_keeps_matches(pattern: Seq<char>, text: Seq<char>)
    ensures
        search_outcome(pattern, text) is Ok ==> {
            let records = search_outcome(pattern, text)->Ok_0;
            let found = regex_matches(pattern, text);
            &&& records.len() == found.len()
            &&& forall|i: int|
                0 <= i < found.len() ==> parse_line(found[i]) == Some(#[trigger] records[i])
        },
{
    if search_outcome(pattern, text) is Ok {
        let records = search_outcome(pattern, text)->Ok_0;
        let found = regex_matches(pattern, text);
        assert forall|i: int| 0 <= i < found.len() implies parse_line(found[i]) == Some(
            #[trigger] records[i],
        ) by {
            assert(parse_line(found[i]) is Some);
        }
    }
}

/// Where the pattern without filters compiles, its matches in the normal
/// form of the corpus are the lines of the corpus, and every line encodes a
/// record, a lookup without filters returns the record of every line, in
/// corpus order, as many records as the corpus has lines. Whether the
/// matches are the lines is for the `regex` crate to say.
pub proof fn lemma_find_every_line(corpus: Seq<char>)
    ensures
        ({
            let p = pattern_text(None, None, None, None);
            &&& regex_accepts(p)
            &&& regex_matches(p, normalized(corpus)) == corpus_lines(corpus)
            &&& all_parse(corpus_lines(corpus))
        }) ==> {
            let r = find_outcome(normalized(corpus), None, None, None, None);
            &&& r is Ok
            &&& r->Ok_0.len() == corpus_lines(corpus).len()
            &&& forall|i: int|
                0 <= i < corpus_lines(corpus).len() ==> parse_line(corpus_lines(corpus)[i]) == Some(
                    #[trigger] r->Ok_0[i],
                )
        },
{
    lemma_search_keeps_matches(pattern_text(None, None, None, None), normalized(corpus));
}

} // verus!
