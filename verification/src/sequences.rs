//! A fact about sequences that the loops of this crate lean on.

use vstd::prelude::*;

verus! {

/// The first `i + 1` items are the first `i` items and item `i`.
pub proof fn lemma_take_step<T>(s: Seq<T>, i: int)
    requires
        0 <= i < s.len(),
    ensures
        s.take(i + 1).drop_last() == s.take(i),
        s.take(i + 1).last() == s[i],
        s.take(i + 1).len() == i + 1,
{
    assert(s.take(i + 1).drop_last() =~= s.take(i));
}

} // verus!
