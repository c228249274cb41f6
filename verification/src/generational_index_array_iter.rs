use vstd::prelude::*;

use crate::generational_index::GenerationalIndex;
use crate::generational_index_array::GenerationalIndexArray;

verus! {

/// A borrowing iterator over the occupied positions of a
/// `GenerationalIndexArray`, in increasing position order.  Each call to
/// `next` yields the identifier an entry answers to and a reference to its
/// value; empty positions are skipped.
pub struct GenerationalIndexArrayIter<'a, T> {
    arr: &'a GenerationalIndexArray<T>,
    pos: usize,
}

impl<'a, T> GenerationalIndexArrayIter<'a, T> {
    /// The store being iterated over.
    pub closed spec fn contents(self) -> Seq<Option<(int, T)>> {
        self.arr@
    }

    /// The next position the iterator will look at.
    pub closed spec fn cursor(self) -> int {
        self.pos as int
    }

    pub open spec fn wf(self) -> bool {
        0 <= self.cursor() <= self.contents().len()
    }

    pub(crate) fn new(arr: &'a GenerationalIndexArray<T>) -> (r: Self)
        ensures
            r.contents() == arr@,
            r.cursor() == 0,
            r.wf(),
    {
        GenerationalIndexArrayIter { arr, pos: 0 }
    }

    /// The pair at the first occupied position at or past the cursor, or
    /// `None` once only empty positions remain; the cursor advances past the
    /// yielded position, so repeated calls walk the occupied positions in
    /// strictly increasing order and visit every one of them exactly once.
    pub fn next(&mut self) -> (r: Option<(GenerationalIndex, &'a T)>)
        requires
            old(self).wf(),
        ensures
            final(self).wf(),
            final(self).contents() == old(self).contents(),
            match r {
                Some(pr) => {
                    &&& old(self).cursor() <= pr.0.pos() < old(self).contents().len()
                    &&& old(self).contents()[pr.0.pos()] == Some((pr.0.gen(), *pr.1))
                    &&& forall|q: int|
                        old(self).cursor() <= q < pr.0.pos()
                            ==> old(self).contents()[q] is None
                    &&& final(self).cursor() == pr.0.pos() + 1
                },
                None => {
                    &&& forall|q: int|
                        old(self).cursor() <= q < old(self).contents().len()
                            ==> old(self).contents()[q] is None
                    &&& final(self).cursor() == old(self).contents().len()
                },
            },
    {
        let arr = self.arr;
        let n = arr.slot_count();
        while self.pos < n
            invariant
                self.arr == arr,
                arr == old(self).arr,
                n == arr@.len(),
                old(self).cursor() <= self.pos <= n,
                forall|q: int| old(self).cursor() <= q < self.pos ==> arr@[q] is None,
            decreases n - self.pos,
        {
            let p = self.pos;
            self.pos = p + 1;
            if let Some(pr) = arr.entry_at(p) {
                return Some(pr);
            }
        }
        None
    }
}

} // verus!
