use vstd::prelude::*;

use crate::generational_index::GenerationalIndex;

verus! {

/// A consuming iterator over the occupied positions of a
/// `GenerationalIndexArray`, in increasing position order.  It owns the
/// remaining `(identifier, value)` pairs, stored in descending position
/// order so that each `next` pops the lowest remaining position.
pub struct GenerationalIndexArrayIntoIter<T> {
    rev: Vec<(GenerationalIndex, T)>,
}

impl<T> GenerationalIndexArrayIntoIter<T> {
    /// The pairs not yet yielded, in the order they will come out.
    pub closed spec fn remaining(self) -> Seq<(GenerationalIndex, T)> {
        self.rev@.reverse()
    }

    /// Wraps pairs already laid out in descending position order.
    pub(crate) fn from_rev(rev: Vec<(GenerationalIndex, T)>) -> (r: Self)
        ensures
            r.remaining() == rev@.reverse(),
    {
        GenerationalIndexArrayIntoIter { rev }
    }

    /// The first remaining pair, or `None` once the iterator is exhausted.
    pub fn next(&mut self) -> (r: Option<(GenerationalIndex, T)>)
        ensures
            old(self).remaining().len() == 0 ==> r is None && final(self).remaining()
                == old(self).remaining(),
            old(self).remaining().len() > 0 ==> r == Some(old(self).remaining().first())
                && final(self).remaining() == old(self).remaining().drop_first(),
    {
        let r = self.rev.pop();
        proof {
            if old(self).rev@.len() > 0 {
                assert(self.rev@.reverse() =~= old(self).rev@.reverse().drop_first());
            }
        }
        r
    }
}

} // verus!
