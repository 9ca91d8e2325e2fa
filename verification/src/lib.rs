//! Core text-windowing engine behind a pair of cat-like and head-like
//! command-line viewers: line numbering and end markers, head-style
//! line/byte window selection with signed counts, count parsing, and a
//! driver that isolates per-source failures.

pub mod cat;
pub mod driver;
pub mod errors;
pub mod head;
pub mod numbering;
pub mod parse;
pub mod text;
pub mod window;

use vstd::prelude::*;

verus! {

/// The character sequences of a sequence of strings, element by element.
pub open spec fn views_of(v: Seq<String>) -> Seq<Seq<char>> {
    Seq::new(v.len(), |i: int| v[i]@)
}

/// `views_of` distributes over concatenation.
pub proof fn lemma_views_of_concat(a: Seq<String>, b: Seq<String>)
    ensures
        views_of(a + b) == views_of(a) + views_of(b),
{
    assert(views_of(a + b) =~= views_of(a) + views_of(b));
}

} // verus!
