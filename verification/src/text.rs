//! Text as sequences of characters: splitting on a separator, joining back,
//! and moving between `str` and `String`.

use vstd::prelude::*;

verus! {

/// The pieces of `s` between occurrences of `sep`. There is always at least
/// one piece; a separator at either end gives an empty piece there.
pub open spec fn split(s: Seq<char>, sep: char) -> Seq<Seq<char>>
    decreases s.len(),
{
    if s.len() == 0 {
        seq![Seq::<char>::empty()]
    } else {
        let before = split(s.drop_last(), sep);
        if s.last() == sep {
            before.push(Seq::<char>::empty())
        } else {
            before.update(before.len() - 1, before.last().push(s.last()))
        }
    }
}

/// The pieces written one after another with `sep` between neighbours.
pub open spec fn join(pieces: Seq<Seq<char>>, sep: char) -> Seq<char>
    decreases pieces.len(),
{
    if pieces.len() == 0 {
        Seq::<char>::empty()
    } else if pieces.len() == 1 {
        pieces[0]
    } else {
        join(pieces.drop_last(), sep).push(sep) + pieces.last()
    }
}

/// `s` without the run of `c` at its end.
pub open spec fn strip_trailing(s: Seq<char>, c: char) -> Seq<char>
    decreases s.len(),
{
    if s.len() > 0 && s.last() == c {
        strip_trailing(s.drop_last(), c)
    } else {
        s
    }
}

/// True when `c` occurs nowhere in `s`.
pub open spec fn free_of(s: Seq<char>, c: char) -> bool {
    forall|i: int| 0 <= i < s.len() ==> s[i] != c
}

/// The character sequences that a list of strings holds.
pub open spec fn texts(v: Seq<String>) -> Seq<Seq<char>> {
    v.map_values(|s: String| s@)
}

/// Splitting always yields at least one piece.
pub proof fn lemma_split_nonempty(s: Seq<char>, sep: char)
    ensures
        split(s, sep).len() >= 1,
    decreases s.len(),
{
    if s.len() > 0 {
        lemma_split_nonempty(s.drop_last(), sep);
    }
}

/// Joining the pieces of a split with the same separator gives the text back.
pub proof fn lemma_join_split(s: Seq<char>, sep: char)
    ensures
        join(split(s, sep), sep) == s,
    decreases s.len(),
{
    if s.len() > 0 {
        let t = s.drop_last();
        let c = s.last();
        let before = split(t, sep);
        lemma_split_nonempty(t, sep);
        lemma_join_split(t, sep);
        assert(s =~= t.push(c));
        if c == sep {
            let after = before.push(Seq::<char>::empty());
            assert(after.drop_last() =~= before);
            assert(join(after, sep) =~= t.push(c));
        } else {
            let after = before.update(before.len() - 1, before.last().push(c));
            if before.len() == 1 {
                assert(join(after, sep) =~= t.push(c));
            } else {
                assert(after.drop_last() =~= before.drop_last());
                assert(join(after, sep) =~= join(before, sep).push(c));
            }
        }
    }
}

/// No piece of a split holds the separator.
pub proof fn lemma_split_free(s: Seq<char>, sep: char)
    ensures
        forall|i: int| 0 <= i < split(s, sep).len() ==> free_of(#[trigger] split(s, sep)[i], sep),
    decreases s.len(),
{
    if s.len() > 0 {
        lemma_split_nonempty(s.drop_last(), sep);
        lemma_split_free(s.drop_last(), sep);
    }
}

/// Splitting a join of separator-free pieces gives the pieces back.
pub proof fn lemma_split_join(pieces: Seq<Seq<char>>, sep: char)
    requires
        pieces.len() >= 1,
        forall|i: int| 0 <= i < pieces.len() ==> free_of(#[trigger] pieces[i], sep),
    ensures
        split(join(pieces, sep), sep) == pieces,
    decreases pieces.len(),
{
    if pieces.len() == 1 {
        lemma_split_piece(Seq::<char>::empty(), pieces[0], sep);
        assert(Seq::<char>::empty() + pieces[0] =~= pieces[0]);
        assert(split(Seq::<char>::empty(), sep) =~= seq![Seq::<char>::empty()]);
        assert(pieces =~= seq![pieces[0]]);
    } else {
        let head = pieces.drop_last();
        lemma_split_join(head, sep);
        let prefix = join(head, sep).push(sep);
        assert(prefix.drop_last() =~= join(head, sep));
        assert(split(prefix, sep) == head.push(Seq::<char>::empty()));
        lemma_split_piece(prefix, pieces.last(), sep);
        assert(split(prefix + pieces.last(), sep) =~= pieces);
    }
}

/// Appending separator-free text to `s` extends the last piece of its split.
pub proof fn lemma_split_piece(s: Seq<char>, tail: Seq<char>, sep: char)
    requires
        free_of(tail, sep),
    ensures
        split(s + tail, sep) == split(s, sep).update(
            split(s, sep).len() - 1,
            split(s, sep).last() + tail,
        ),
    decreases tail.len(),
{
    lemma_split_nonempty(s, sep);
    let p = split(s, sep);
    if tail.len() == 0 {
        assert(s + tail =~= s);
        assert(p.last() + tail =~= p.last());
        assert(p.update(p.len() - 1, p.last()) =~= p);
    } else {
        let shorter = tail.drop_last();
        lemma_split_piece(s, shorter, sep);
        assert((s + tail).drop_last() =~= s + shorter);
        assert((s + tail).last() == tail.last());
        assert((p.last() + shorter).push(tail.last()) =~= p.last() + tail);
        assert(split(s + tail, sep) =~= p.update(p.len() - 1, p.last() + tail));
    }
}

/// Stripping leaves a beginning of the text that does not end in `c`, and
/// all that it removes is `c`.
pub proof fn lemma_strip_trailing(s: Seq<char>, c: char)
    ensures
        strip_trailing(s, c).len() <= s.len(),
        strip_trailing(s, c) == s.take(strip_trailing(s, c).len() as int),
        strip_trailing(s, c).len() > 0 ==> strip_trailing(s, c).last() != c,
        forall|i: int| strip_trailing(s, c).len() <= i < s.len() ==> s[i] == c,
    decreases s.len(),
{
    if s.len() > 0 && s.last() == c {
        lemma_strip_trailing(s.drop_last(), c);
        let kept = strip_trailing(s, c);
        assert(kept =~= s.take(kept.len() as int));
        assert forall|i: int| kept.len() <= i < s.len() implies s[i] == c by {
            if i < s.len() - 1 {
                assert(s.drop_last()[i] == c);
            }
        }
    } else {
        assert(s =~= s.take(s.len() as int));
    }
}

/// Appends one character to a string: `String::push` of the standard
/// library, which adds the character at the end and leaves the rest as it was.
#[verifier::external_body]
pub(crate) fn push_char(s: &mut String, c: char)
    ensures
        final(s)@ == old(s)@.push(c),
{
    s.push(c)
}

/// The characters of `s`, in order.
pub fn chars_of(s: &str) -> (out: Vec<char>)
    ensures
        out@ == s@,
{
    let mut out: Vec<char> = Vec::new();
    for c in it: s.chars()
        invariant
            out@ == it.seq().take(it.index()),
            it.seq() == s@,
    {
        out.push(c);
    }
    out
}

/// The string made of the first `end` characters of `chars`.
pub fn string_of(chars: &Vec<char>, end: usize) -> (out: String)
    requires
        end <= chars.len(),
    ensures
        out@ == chars@.take(end as int),
{
    let mut out = String::new();
    let mut i: usize = 0;
    while i < end
        invariant
            i <= end <= chars.len(),
            out@ == chars@.take(i as int),
        decreases end - i,
    {
        push_char(&mut out, chars[i]);
        i += 1;
        assert(chars@.take(i as int) =~= chars@.take(i - 1).push(chars@[i - 1]));
    }
    out
}

/// Splits `s` on `sep` into owned pieces.
pub fn split_text(s: &str, sep: char) -> (pieces: Vec<String>)
    ensures
        texts(pieces@) == split(s@, sep),
{
    let mut pieces: Vec<String> = Vec::new();
    let mut cur = String::new();
    assert(texts(pieces@).push(cur@) =~= split(s@.take(0), sep));
    for c in it: s.chars()
        invariant
            it.seq() == s@,
            texts(pieces@).push(cur@) == split(s@.take(it.index()), sep),
    {
        let ghost done = s@.take(it.index());
        let ghost next = s@.take(it.index() + 1);
        assert(next.drop_last() =~= done);
        assert(next.last() == c);
        let ghost old_pieces = pieces@;
        let ghost old_cur = cur@;
        if c == sep {
            pieces.push(cur);
            cur = String::new();
            assert(texts(pieces@) =~= texts(old_pieces).push(old_cur));
        } else {
            push_char(&mut cur, c);
            assert(texts(pieces@).push(cur@) =~= texts(old_pieces).push(old_cur).update(
                old_pieces.len() as int,
                old_cur.push(c),
            ));
        }
    }
    assert(s@.take(s@.len() as int) =~= s@);
    let ghost head = pieces@;
    pieces.push(cur);
    assert(texts(pieces@) =~= texts(head).push(cur@));
    pieces
}

/// A copy of `s` without the run of `c` at its end.
pub fn strip_end(s: &str, c: char) -> (out: String)
    ensures
        out@ == strip_trailing(s@, c),
{
    let chars = chars_of(s);
    let mut end: usize = chars.len();
    assert(chars@.take(end as int) =~= s@);
    while end > 0 && chars[end - 1] == c
        invariant
            end <= chars.len(),
            chars@ == s@,
            strip_trailing(s@, c) == strip_trailing(chars@.take(end as int), c),
        decreases end,
    {
        assert(chars@.take(end as int).drop_last() =~= chars@.take(end - 1));
        end -= 1;
    }
    string_of(&chars, end)
}

} // verus!
