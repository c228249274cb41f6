use vstd::prelude::*;

verus! {

/// A unique identifier with an associated position.  Positions are valued
/// proportional to the number of identifiers allocated, are reused after being
/// freed, and do not grow without bound.  When a position is reused, its
/// associated generation is incremented, so that within the life of a single
/// allocator no two live `GenerationalIndex` values are ever equal.  Since the
/// positions do not grow without bound, `GenerationalIndex` values are well
/// suited to keying fast contiguous arrays.
#[derive(PartialEq, Eq, Structural, PartialOrd, Ord, Hash, Clone, Copy, Debug)]
pub struct GenerationalIndex {
    index: usize,
    generation: u64,
}

impl GenerationalIndex {
    /// The slot position, as a mathematical integer.
    pub closed spec fn pos(self) -> int {
        self.index as int
    }

    /// The generation counter, as a mathematical integer.
    pub closed spec fn gen(self) -> int {
        self.generation as int
    }

    /// The slot position this identifier refers to.
    pub fn index(&self) -> (r: usize)
        ensures
            r == self.pos(),
    {
        self.index
    }

    /// The generation this identifier was issued with.
    pub fn generation(&self) -> (r: u64)
        ensures
            r == self.gen(),
    {
        self.generation
    }

    /// Identifiers are only ever constructed by the allocator and by the
    /// array's bookkeeping, never by outside callers.
    pub(crate) fn make(index: usize, generation: u64) -> (r: GenerationalIndex)
        ensures
            r == id_at(index as int, generation as int),
            r.pos() == index as int,
            r.gen() == generation as int,
    {
        GenerationalIndex { index, generation }
    }
}

/// The identifier whose position is `p` and generation `g`, for `p` within
/// `usize` range and `g` within `u64` range.
pub closed spec fn id_at(p: int, g: int) -> GenerationalIndex {
    GenerationalIndex { index: p as usize, generation: g as u64 }
}

pub broadcast proof fn lemma_id_at_parts(p: int, g: int)
    requires
        0 <= p <= usize::MAX,
        0 <= g <= u64::MAX,
    ensures
        (#[trigger] id_at(p, g)).pos() == p,
        id_at(p, g).gen() == g,
{
}

/// Two identifiers with the same position and the same generation are the
/// same identifier.
pub proof fn lemma_id_ext(a: GenerationalIndex, b: GenerationalIndex)
    requires
        a.pos() == b.pos(),
        a.gen() == b.gen(),
    ensures
        a == b,
{
}

} // verus!
