//! The search pattern for a set of field filters.
//!
//! A corpus line presents its fields in a fixed order, and the pattern holds
//! the filters in that order with a delimiter after each of the first
//! three, whether or not a filter is given. So a line matches where it holds
//! the title filter's text, later a delimiter, later the dynasty filter's
//! text, later a delimiter, later the author filter's text, later a
//! delimiter, and later the sentence filter's text. This does not tie a
//! filter to its field: a title filter's text is also found in a later
//! field, where three delimiters still follow it. Filter values enter the
//! pattern as they are, without escaping.

use vstd::prelude::*;

verus! {

/// Any characters, as many as possible.
pub open spec fn greedy_tail() -> Seq<char> {
    seq!['.', '*']
}

/// Any characters, as few as possible, up to a delimiter, then any
/// characters.
pub open spec fn lazy_tail() -> Seq<char> {
    seq!['.', '*', '?', '\\', '|', '.', '*']
}

/// The characters of an optional filter; none where it is absent.
pub open spec fn filter_text(v: Option<Seq<char>>) -> Seq<char> {
    match v {
        Some(s) => s,
        None => Seq::<char>::empty(),
    }
}

/// The part of the pattern that stands for one field: the filter's value,
/// followed by the lazy tail for a field that a delimiter ends, or by the
/// greedy tail for the last one.
pub open spec fn reg_text(v: Option<Seq<char>>, lazy: bool) -> Seq<char> {
    filter_text(v) + if lazy {
        lazy_tail()
    } else {
        greedy_tail()
    }
}

/// The whole pattern: a leading wildcard, then the parts for title, dynasty
/// and author, each ended by a delimiter, then the part for the sentences.
pub open spec fn pattern_text(
    title: Option<Seq<char>>,
    dynasty: Option<Seq<char>>,
    author: Option<Seq<char>>,
    sentence: Option<Seq<char>>,
) -> Seq<char> {
    greedy_tail() + reg_text(title, true) + reg_text(dynasty, true) + reg_text(author, true)
        + reg_text(sentence, false)
}

/// An optional string slice as an optional sequence of characters.
pub open spec fn option_view(v: Option<&str>) -> Option<Seq<char>> {
    match v {
        Some(s) => Some(s@),
        None => None,
    }
}

/// Writes the part of the pattern that stands for one field.
pub fn reg(v: Option<&str>, add_lazy: bool) -> (r: String)
    ensures
        r@ == reg_text(option_view(v), add_lazy),
{
    let mut out = String::new();
    match v {
        Some(s) => {
            out.append(s);
        },
        None => {},
    }
    assert(out@ =~= filter_text(option_view(v)));
    if add_lazy {
        proof {
            reveal_strlit(".*?\\|.*");
        }
        assert(".*?\\|.*"@ =~= lazy_tail());
        out.append(".*?\\|.*");
    } else {
        proof {
            reveal_strlit(".*");
        }
        assert(".*"@ =~= greedy_tail());
        out.append(".*");
    }
    out
}

/// Writes the pattern for the given filters.
pub fn build(
    title: Option<&str>,
    dynasty: Option<&str>,
    author: Option<&str>,
    sentence: Option<&str>,
) -> (r: String)
    ensures
        r@ == pattern_text(
            option_view(title),
            option_view(dynasty),
            option_view(author),
            option_view(sentence),
        ),
{
    proof {
        reveal_strlit(".*");
    }
    assert(".*"@ =~= greedy_tail());
    let mut content = String::from_str(".*");
    content.append(reg(title, true).as_str());
    content.append(reg(dynasty, true).as_str());
    content.append(reg(author, true).as_str());
    content.append(reg(sentence, false).as_str());
    content
}

} // verus!
