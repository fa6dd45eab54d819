//! Drawing one record of the corpus at random.

use vstd::prelude::*;
use rand::rngs::ThreadRng;
use rand::Rng;
use crate::corpus::{corpus_lines, lines};
use crate::error::PoetryError;
use crate::record::{outcome_view, parse_outcome, Poetry, PoetryView};
use crate::text::texts;

verus! {

/// The generator of the current thread, of the `rand` crate: carried from
/// where it is obtained to where a number is drawn, never looked into.
#[verifier::external_type_specification]
#[verifier::external_body]
pub struct ExThreadRng(ThreadRng);

/// `thread_rng` of the `rand` crate hands out the generator of the current
/// thread. Nothing is claimed of it.
pub assume_specification[ rand::thread_rng ]() -> (rng: ThreadRng)
;

/// `Rng::gen_range` of the `rand` crate on the range from zero up to, not
/// including, `n`: the number drawn lies in that range. The range must not
/// be empty.
#[verifier::external_body]
fn draw_below(rng: &mut ThreadRng, n: usize) -> (i: usize)
    requires
        n > 0,
    ensures
        i < n,
{
    rng.gen_range(0..n)
}

/// What picking line `n` returns: `DegenerateCorpus` where there is no line,
/// else the outcome of reading that line.
pub open spec fn pick_outcome(lines: Seq<Seq<char>>, n: int) -> Result<PoetryView, PoetryError> {
    if lines.len() == 0 {
        Err(PoetryError::DegenerateCorpus)
    } else {
        parse_outcome(lines[n])
    }
}

/// Reads line `n` of `lines` as a record.
pub fn pick(lines: &Vec<String>, n: usize) -> (r: Result<Poetry, PoetryError>)
    requires
        lines.len() > 0 ==> n < lines.len(),
    ensures
        outcome_view(r) == pick_outcome(texts(lines@), n as int),
{
    if lines.len() == 0 {
        Err(PoetryError::DegenerateCorpus)
    } else {
        Poetry::parse(lines[n].as_str())
    }
}

impl Poetry {
    /// Draws one line of `corpus` and reads it as a record. A corpus without
    /// lines gives `DegenerateCorpus`; any other gives the outcome of reading
    /// one of its lines.
    pub fn random(corpus: &str) -> (r: Result<Poetry, PoetryError>)
        ensures
            (r is Err && r->Err_0 == PoetryError::DegenerateCorpus) <==> corpus_lines(corpus@).len()
                == 0,
            corpus_lines(corpus@).len() > 0 ==> exists|n: int|
                0 <= n < corpus_lines(corpus@).len() && outcome_view(r) == parse_outcome(
                    #[trigger] corpus_lines(corpus@)[n],
                ),
    {
        let all = lines(corpus);
        assert(texts(all@).len() == all.len());
        if all.len() == 0 {
            return Err(PoetryError::DegenerateCorpus);
        }
        let mut rng = rand::thread_rng();
        let n = draw_below(&mut rng, all.len());
        let r = pick(&all, n);
        assert(outcome_view(r) == parse_outcome(corpus_lines(corpus@)[n as int]));
        r
    }
}

} // verus!
