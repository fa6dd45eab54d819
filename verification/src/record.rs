//! One poem: its title, dynasty, author and sentences, read from a corpus
//! line and written back to one.

use vstd::prelude::*;
use crate::error::PoetryError;
use crate::text::{free_of, join, lemma_join_split, lemma_split_free, lemma_split_join, push_char,
    split, split_text, texts};

verus! {

/// The character that separates the fields of a corpus line.
pub const DELIMITER: char = '|';

/// What a record holds, as plain sequences of characters.
pub struct PoetryView {
    pub title: Seq<char>,
    pub dynasty: Seq<char>,
    pub author: Seq<char>,
    pub sentences: Seq<Seq<char>>,
}

impl PoetryView {
    /// The fields in the order in which a corpus line presents them.
    pub open spec fn fields(self) -> Seq<Seq<char>> {
        seq![self.title, self.dynasty, self.author] + self.sentences
    }

    /// No field holds the delimiter.
    pub open spec fn wf(self) -> bool {
        forall|i: int|
            0 <= i < self.fields().len() ==> free_of(#[trigger] self.fields()[i], DELIMITER)
    }

    /// The corpus line that encodes this record.
    pub open spec fn line(self) -> Seq<char> {
        join(self.fields(), DELIMITER)
    }

    /// The record as shown to a reader: the title, then dynasty and author
    /// with a dot between them, then each sentence, one per line, the lines
    /// separated by a carriage return and a line feed.
    pub open spec fn text(self) -> Seq<char> {
        self.title + seq!['\r', '\n'] + self.dynasty + seq!['.'] + self.author + sentence_lines(
            self.sentences,
        )
    }
}

/// Each sentence preceded by a carriage return and a line feed.
pub open spec fn sentence_lines(sentences: Seq<Seq<char>>) -> Seq<char>
    decreases sentences.len(),
{
    if sentences.len() == 0 {
        Seq::<char>::empty()
    } else {
        sentence_lines(sentences.drop_last()) + seq!['\r', '\n'] + sentences.last()
    }
}

/// The record that a line encodes: its first three fields are title, dynasty
/// and author, all further fields are sentences. A line with fewer than three
/// fields encodes none.
pub open spec fn parse_line(line: Seq<char>) -> Option<PoetryView> {
    let fields = split(line, DELIMITER);
    if fields.len() < 3 {
        None
    } else {
        Some(
            PoetryView {
                title: fields[0],
                dynasty: fields[1],
                author: fields[2],
                sentences: fields.skip(3),
            },
        )
    }
}

/// What parsing a line returns: the record it encodes, or `MalformedRecord`.
pub open spec fn parse_outcome(line: Seq<char>) -> Result<PoetryView, PoetryError> {
    match parse_line(line) {
        Some(v) => Ok(v),
        None => Err(PoetryError::MalformedRecord),
    }
}

/// The outcome of an operation that yields one record, over views.
pub open spec fn outcome_view(r: Result<Poetry, PoetryError>) -> Result<PoetryView, PoetryError> {
    match r {
        Ok(p) => Ok(p@),
        Err(e) => Err(e),
    }
}

/// The character sequences that a list of string slices holds.
pub open spec fn slices(v: Seq<&str>) -> Seq<Seq<char>> {
    v.map_values(|s: &str| s@)
}

/// A poem of the corpus. As every record is read from a line, none of its
/// fields holds the delimiter.
#[derive(Debug, PartialEq, Eq)]
pub struct Poetry {
    title: String,
    author: String,
    dynasty: String,
    sentences: Vec<String>,
}

impl View for Poetry {
    type V = PoetryView;

    closed spec fn view(&self) -> PoetryView {
        PoetryView {
            title: self.title@,
            dynasty: self.dynasty@,
            author: self.author@,
            sentences: texts(self.sentences@),
        }
    }
}

impl Clone for Poetry {
    fn clone(&self) -> (r: Self)
        ensures
            r@ == self@,
    {
        let mut sentences: Vec<String> = Vec::new();
        let mut i: usize = 0;
        while i < self.sentences.len()
            invariant
                i <= self.sentences.len(),
                texts(sentences@) == texts(self.sentences@).take(i as int),
            decreases self.sentences.len() - i,
        {
            let ghost before = sentences@;
            sentences.push(self.sentences[i].clone());
            assert(texts(sentences@) =~= texts(before).push(self.sentences[i as int]@));
            i += 1;
            assert(texts(sentences@) =~= texts(self.sentences@).take(i as int));
        }
        assert(texts(self.sentences@).take(i as int) =~= texts(self.sentences@));
        proof {
            use_type_invariant(self);
        }
        Poetry {
            title: self.title.clone(),
            author: self.author.clone(),
            dynasty: self.dynasty.clone(),
            sentences,
        }
    }
}

impl Poetry {
    #[verifier::type_invariant]
    closed spec fn inv(self) -> bool {
        self@.wf()
    }

    /// Reads the record that `line` encodes. The record read is well formed,
    /// and its line is `line`.
    pub fn parse(line: &str) -> (r: Result<Poetry, PoetryError>)
        ensures
            outcome_view(r) == parse_outcome(line@),
            r is Ok ==> r->Ok_0@.wf() && r->Ok_0@.line() == line@,
    {
        let mut fields = split_text(line, DELIMITER);
        if fields.len() < 3 {
            return Err(PoetryError::MalformedRecord);
        }
        let ghost all = texts(fields@);
        let sentences = fields.split_off(3);
        let author = fields.pop().unwrap();
        let dynasty = fields.pop().unwrap();
        let title = fields.pop().unwrap();
        proof {
            let v = PoetryView {
                title: title@,
                dynasty: dynasty@,
                author: author@,
                sentences: texts(sentences@),
            };
            assert(v.sentences =~= all.skip(3));
            assert(v.fields() =~= all);
            lemma_split_free(line@, DELIMITER);
            lemma_parse_round_trip(line@);
        }
        Ok(Poetry { title, author, dynasty, sentences })
    }

    /// The title.
    pub fn get_title(&self) -> (r: &str)
        ensures
            r@ == self@.title,
            free_of(r@, DELIMITER),
    {
        proof {
            use_type_invariant(self);
            assert(self@.fields()[0] == self@.title);
        }
        self.title.as_str()
    }

    /// The author.
    pub fn get_author(&self) -> (r: &str)
        ensures
            r@ == self@.author,
            free_of(r@, DELIMITER),
    {
        proof {
            use_type_invariant(self);
            assert(self@.fields()[2] == self@.author);
        }
        self.author.as_str()
    }

    /// The dynasty.
    pub fn get_dynasty(&self) -> (r: &str)
        ensures
            r@ == self@.dynasty,
            free_of(r@, DELIMITER),
    {
        proof {
            use_type_invariant(self);
            assert(self@.fields()[1] == self@.dynasty);
        }
        self.dynasty.as_str()
    }

    /// The sentences, in the order of the line.
    pub fn get_sentences(&self) -> (r: Vec<&str>)
        ensures
            slices(r@) == self@.sentences,
            forall|i: int| 0 <= i < r.len() ==> free_of(#[trigger] r[i]@, DELIMITER),
    {
        let mut out: Vec<&str> = Vec::new();
        let mut i: usize = 0;
        while i < self.sentences.len()
            invariant
                i <= self.sentences.len(),
                slices(out@) == texts(self.sentences@).take(i as int),
            decreases self.sentences.len() - i,
        {
            let ghost before = out@;
            out.push(self.sentences[i].as_str());
            assert(slices(out@) =~= slices(before).push(self.sentences[i as int]@));
            i += 1;
            assert(slices(out@) =~= texts(self.sentences@).take(i as int));
        }
        assert(texts(self.sentences@).take(i as int) =~= texts(self.sentences@));
        proof {
            use_type_invariant(self);
            assert forall|i: int| 0 <= i < out.len() implies free_of(
                #[trigger] out[i]@,
                DELIMITER,
            ) by {
                assert(out[i]@ == slices(out@)[i]);
                assert(self@.fields()[i + 3] == self@.sentences[i]);
            }
        }
        out
    }

    /// Writes the record as the corpus line that encodes it.
    pub fn to_line(&self) -> (r: String)
        ensures
            r@ == self@.line(),
            parse_line(r@) == Some(self@),
    {
        proof {
            use_type_invariant(self);
            lemma_line_round_trip(self@);
        }
        let mut out = self.title.clone();
        push_char(&mut out, DELIMITER);
        out.append(self.dynasty.as_str());
        push_char(&mut out, DELIMITER);
        out.append(self.author.as_str());
        let ghost head = seq![self@.title, self@.dynasty, self@.author];
        proof {
            let two = seq![self@.title, self@.dynasty];
            let one = seq![self@.title];
            assert(head.drop_last() =~= two);
            assert(two.drop_last() =~= one);
            assert(join(one, DELIMITER) == self@.title);
            assert(join(two, DELIMITER) == self@.title.push(DELIMITER) + self@.dynasty);
            assert(out@ =~= join(head, DELIMITER));
            assert(head + texts(self.sentences@).take(0) =~= head);
        }
        let mut i: usize = 0;
        while i < self.sentences.len()
            invariant
                i <= self.sentences.len(),
                head == seq![self@.title, self@.dynasty, self@.author],
                out@ == join(head + texts(self.sentences@).take(i as int), DELIMITER),
            decreases self.sentences.len() - i,
        {
            let ghost before = head + texts(self.sentences@).take(i as int);
            push_char(&mut out, DELIMITER);
            out.append(self.sentences[i].as_str());
            i += 1;
            proof {
                let after = head + texts(self.sentences@).take(i as int);
                assert(after.drop_last() =~= before);
                assert(after.last() == self.sentences[i - 1]@);
            }
        }
        assert(texts(self.sentences@).take(i as int) =~= texts(self.sentences@));
        out
    }

    /// Writes the record as text for a reader.
    pub fn to_text(&self) -> (r: String)
        ensures
            r@ == self@.text(),
    {
        let mut out = self.title.clone();
        push_char(&mut out, '\r');
        push_char(&mut out, '\n');
        out.append(self.dynasty.as_str());
        push_char(&mut out, '.');
        out.append(self.author.as_str());
        let ghost head = out@;
        proof {
            assert(head =~= self@.title + seq!['\r', '\n'] + self@.dynasty + seq!['.']
                + self@.author);
            assert(head + sentence_lines(texts(self.sentences@).take(0)) =~= head);
        }
        let mut i: usize = 0;
        while i < self.sentences.len()
            invariant
                i <= self.sentences.len(),
                out@ == head + sentence_lines(texts(self.sentences@).take(i as int)),
            decreases self.sentences.len() - i,
        {
            let ghost before = texts(self.sentences@).take(i as int);
            push_char(&mut out, '\r');
            push_char(&mut out, '\n');
            out.append(self.sentences[i].as_str());
            i += 1;
            proof {
                let after = texts(self.sentences@).take(i as int);
                assert(after.drop_last() =~= before);
                assert(after.last() == self.sentences[i - 1]@);
                assert(out@ =~= head + sentence_lines(after));
            }
        }
        assert(texts(self.sentences@).take(i as int) =~= texts(self.sentences@));
        out
    }
}

/// A line that encodes a record is the line of that record: parsing and
/// writing back reproduces the line exactly.
pub proof fn lemma_parse_round_trip(line: Seq<char>)
    requires
        parse_line(line) is Some,
    ensures
        parse_line(line)->Some_0.line() == line,
{
    let fields = split(line, DELIMITER);
    lemma_join_split(line, DELIMITER);
    assert(parse_line(line)->Some_0.fields() =~= fields);
}

/// A record whose fields are free of the delimiter is the one that its line
/// encodes: writing and parsing back reproduces the record.
pub proof fn lemma_line_round_trip(v: PoetryView)
    requires
        v.wf(),
    ensures
        parse_line(v.line()) == Some(v),
{
    lemma_split_join(v.fields(), DELIMITER);
    let fields = split(v.line(), DELIMITER);
    assert(fields == v.fields());
    assert(fields.skip(3) =~= v.sentences);
}

} // verus!
