//! The corpus as a sequence of lines.

use vstd::prelude::*;
use crate::text::{free_of, join, lemma_split_free, lemma_split_join, lemma_split_nonempty,
    lemma_strip_trailing, push_char, split, split_text, strip_end, strip_trailing, texts};

verus! {

/// The character that ends a corpus line.
pub const LINE_END: char = '\n';

/// The character that may precede a line end and is no part of the line.
pub const CARRIAGE_RETURN: char = '\r';

/// The lines of a corpus: the text between line ends, where an empty piece
/// after the last line end is no line, each without the carriage returns at
/// its end.
pub open spec fn corpus_lines(corpus: Seq<char>) -> Seq<Seq<char>> {
    let pieces = split(corpus, LINE_END);
    let kept = if pieces.last().len() == 0 {
        pieces.drop_last()
    } else {
        pieces
    };
    kept.map_values(|p: Seq<char>| strip_trailing(p, CARRIAGE_RETURN))
}

/// The corpus in normal form: its lines with one line end between
/// neighbours, so that no carriage return is left at the end of a line and
/// no line end after the last line.
pub open spec fn normalized(corpus: Seq<char>) -> Seq<char> {
    join(corpus_lines(corpus), LINE_END)
}

/// No line holds a line end, and none ends in a carriage return.
pub proof fn lemma_lines_clean(corpus: Seq<char>)
    ensures
        forall|i: int|
            0 <= i < corpus_lines(corpus).len() ==> {
                let line = #[trigger] corpus_lines(corpus)[i];
                &&& free_of(line, LINE_END)
                &&& line.len() > 0 ==> line.last() != CARRIAGE_RETURN
            },
{
    let pieces = split(corpus, LINE_END);
    lemma_split_nonempty(corpus, LINE_END);
    lemma_split_free(corpus, LINE_END);
    assert forall|i: int| 0 <= i < corpus_lines(corpus).len() implies {
        let line = #[trigger] corpus_lines(corpus)[i];
        &&& free_of(line, LINE_END)
        &&& line.len() > 0 ==> line.last() != CARRIAGE_RETURN
    } by {
        lemma_strip_trailing(pieces[i], CARRIAGE_RETURN);
        assert(free_of(pieces[i], LINE_END));
        assert(corpus_lines(corpus)[i] == strip_trailing(pieces[i], CARRIAGE_RETURN));
    }
}

/// A corpus has no line exactly when it is empty.
pub proof fn lemma_no_lines(corpus: Seq<char>)
    ensures
        corpus_lines(corpus).len() == 0 <==> corpus.len() == 0,
{
    lemma_split_nonempty(corpus, LINE_END);
    if corpus.len() > 0 {
        lemma_split_nonempty(corpus.drop_last(), LINE_END);
    }
}

/// The pieces of the normal form between line ends are the lines of the
/// corpus, where it has any.
pub proof fn lemma_normalized_pieces(corpus: Seq<char>)
    ensures
        corpus_lines(corpus).len() > 0 ==> split(normalized(corpus), LINE_END) == corpus_lines(
            corpus,
        ),
{
    if corpus_lines(corpus).len() > 0 {
        lemma_lines_clean(corpus);
        lemma_split_join(corpus_lines(corpus), LINE_END);
    }
}

/// Splits a corpus into its lines.
pub fn lines(corpus: &str) -> (out: Vec<String>)
    ensures
        texts(out@) == corpus_lines(corpus@),
{
    let pieces = split_text(corpus, LINE_END);
    proof {
        lemma_split_nonempty(corpus@, LINE_END);
    }
    let n = pieces.len();
    let kept = if pieces[n - 1].as_str().is_empty() {
        n - 1
    } else {
        n
    };
    let mut out: Vec<String> = Vec::new();
    let mut i: usize = 0;
    while i < kept
        invariant
            i <= kept <= pieces.len(),
            texts(out@) == texts(pieces@).take(i as int).map_values(
                |p: Seq<char>| strip_trailing(p, CARRIAGE_RETURN),
            ),
        decreases kept - i,
    {
        let ghost before = out@;
        let line = strip_end(pieces[i].as_str(), CARRIAGE_RETURN);
        out.push(line);
        i += 1;
        assert(texts(out@) =~= texts(pieces@).take(i as int).map_values(
            |p: Seq<char>| strip_trailing(p, CARRIAGE_RETURN),
        )) by {
            assert(texts(out@) =~= texts(before).push(line@));
        }
    }
    assert(texts(pieces@).take(kept as int) =~= if texts(pieces@).last().len() == 0 {
        texts(pieces@).drop_last()
    } else {
        texts(pieces@)
    });
    out
}

/// Writes the corpus in normal form.
pub fn normalize(corpus: &str) -> (out: String)
    ensures
        out@ == normalized(corpus@),
{
    let all = lines(corpus);
    let mut out = String::new();
    let mut i: usize = 0;
    assert(out@ =~= join(texts(all@).take(0), LINE_END));
    while i < all.len()
        invariant
            i <= all.len(),
            out@ == join(texts(all@).take(i as int), LINE_END),
        decreases all.len() - i,
    {
        let ghost before = texts(all@).take(i as int);
        let ghost written = out@;
        if i > 0 {
            push_char(&mut out, LINE_END);
        }
        out.append(all[i].as_str());
        i += 1;
        proof {
            let after = texts(all@).take(i as int);
            assert(after.drop_last() =~= before);
            assert(after.last() == all[i - 1]@);
            if i == 1 {
                assert(out@ =~= after[0]);
            } else {
                assert(out@ =~= written.push(LINE_END) + after.last());
            }
        }
    }
    assert(texts(all@).take(i as int) =~= texts(all@));
    out
}

} // verus!
