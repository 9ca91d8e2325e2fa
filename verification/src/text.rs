//! Small text assembly shared by the command surfaces: joining argument
//! words with single spaces, as the echo-style surface prints them.

use vstd::prelude::*;
use vstd::string::*;
use crate::views_of;

verus! {

/// The given pieces joined with a single space between neighbours.
pub open spec fn joined_with_spaces(parts: Seq<Seq<char>>) -> Seq<char>
    decreases parts.len(),
{
    if parts.len() == 0 {
        Seq::empty()
    } else if parts.len() == 1 {
        parts[0]
    } else {
        joined_with_spaces(parts.drop_last()) + seq![' '] + parts.last()
    }
}

/// Joins the given words with single spaces.
pub fn join_with_spaces(parts: &Vec<String>) -> (r: String)
    ensures
        r@ == joined_with_spaces(views_of(parts@)),
{
    let ghost vp = views_of(parts@);
    let mut r = String::new();
    let mut i: usize = 0;
    while i < parts.len()
        invariant
            i <= parts.len(),
            vp == views_of(parts@),
            r@ == joined_with_spaces(vp.take(i as int)),
        decreases parts.len() - i,
    {
        if i > 0 {
            proof {
                reveal_strlit(" ");
            }
            r.append(" ");
        }
        r.append(parts[i].as_str());
        proof {
            if i == 0 {
                assert(vp.take(1).len() == 1);
                assert(r@ =~= joined_with_spaces(vp.take(1)));
            } else {
                assert(vp.take(i as int + 1).drop_last() =~= vp.take(i as int));
                assert(vp.take(i as int + 1).last() == vp[i as int]);
                assert(r@ =~= joined_with_spaces(vp.take(i as int + 1)));
            }
        }
        i += 1;
    }
    proof {
        assert(vp.take(parts@.len() as int) =~= vp);
    }
    r
}

} // verus!
