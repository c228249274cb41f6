use vstd::prelude::*;

use crate::generational_index::GenerationalIndex;
use crate::generational_index::id_at;
use crate::generational_index::lemma_id_at_parts;
use crate::generational_index_array_into_iter::GenerationalIndexArrayIntoIter;
use crate::generational_index_array_iter::GenerationalIndexArrayIter;

verus! {

broadcast use lemma_id_at_parts;

/// The value stored at position `p` under generation `g`: the occupant of the
/// slot, but only when its stored generation matches `g`.  This is the core
/// stale-reference defense: a mismatched generation reads as "not found".
pub open spec fn lookup<T>(s: Seq<Option<(int, T)>>, p: int, g: int) -> Option<T> {
    if 0 <= p < s.len() {
        match s[p] {
            Some(e) => if e.0 == g {
                Some(e.1)
            } else {
                None
            },
            None => None,
        }
    } else {
        None
    }
}

/// The `(generation, value)` entry an insertion at position `p` displaces,
/// whatever generation it was stored under.
pub open spec fn displaced<T>(s: Seq<Option<(int, T)>>, p: int) -> Option<(int, T)> {
    if 0 <= p < s.len() {
        s[p]
    } else {
        None
    }
}

/// The store after writing `(g, v)` at position `p`, growing the storage
/// with empty entries as needed.
pub open spec fn spec_insert<T>(s: Seq<Option<(int, T)>>, p: int, g: int, v: T) -> Seq<
    Option<(int, T)>,
> {
    Seq::new(
        if p < s.len() {
            s.len()
        } else {
            (p + 1) as nat
        },
        |i: int|
            if i == p {
                Some((g, v))
            } else if i < s.len() {
                s[i]
            } else {
                None
            },
    )
}

/// The store after removing the entry at position `p` under generation `g`:
/// cleared only when the stored generation matches, untouched otherwise.
pub open spec fn spec_remove<T>(s: Seq<Option<(int, T)>>, p: int, g: int) -> Seq<Option<(int, T)>> {
    if lookup(s, p, g) is Some {
        s.update(p, None)
    } else {
        s
    }
}

/// The store that inserting a sequence of `(identifier, value)` pairs in
/// order produces: each pair written at its identifier's position and
/// generation, later pairs displacing earlier ones.
pub open spec fn spec_from_pairs<T>(pairs: Seq<(GenerationalIndex, T)>) -> Seq<Option<(int, T)>>
    decreases pairs.len(),
{
    if pairs.len() == 0 {
        Seq::empty()
    } else {
        spec_insert(
            spec_from_pairs(pairs.drop_last()),
            pairs.last().0.pos(),
            pairs.last().0.gen(),
            pairs.last().1,
        )
    }
}

/// Every stored generation fits in `u64`; true of every array's view, and
/// what lets the occupied-pair lemmas name identifiers for the entries.
pub open spec fn entries_bounded<T>(s: Seq<Option<(int, T)>>) -> bool {
    forall|p: int|
        0 <= p < s.len() ==> match #[trigger] s[p] {
            Some(e) => 0 <= e.0 <= u64::MAX,
            None => true,
        }
}

/// The `(identifier, value)` pairs of the occupied positions of a store, in
/// increasing position order.
pub open spec fn occupied_pairs<T>(s: Seq<Option<(int, T)>>) -> Seq<(GenerationalIndex, T)>
    decreases s.len(),
{
    if s.len() == 0 {
        Seq::empty()
    } else {
        occupied_pairs(s.drop_last()) + (match s.last() {
            Some(e) => seq![(id_at(s.len() - 1, e.0), e.1)],
            None => Seq::empty(),
        })
    }
}

pub(crate) struct ArrayEntry<T> {
    pub(crate) generation: u64,
    pub(crate) value: T,
}

/// An associative array of `GenerationalIndex` keys to values.  Exploits how
/// positions are handed out to map values in a contiguous array: storage is
/// proportional to the largest position ever inserted.  Each entry remembers
/// the generation it was inserted under, so lookups and removals with a stale
/// identifier are rejected without consulting any allocator.  Stored values
/// are mutated in place through `get_mut` or `retain`.
pub struct GenerationalIndexArray<T> {
    entries: Vec<Option<ArrayEntry<T>>>,
}

/// The view of a backing store: each position holds `None` or the
/// `(generation, value)` pair stored there.
pub(crate) open spec fn entries_view<T>(s: Seq<Option<ArrayEntry<T>>>) -> Seq<Option<(int, T)>> {
    Seq::new(
        s.len(),
        |i: int|
            match s[i] {
                Some(e) => Some((e.generation as int, e.value)),
                None => None,
            },
    )
}

impl<T> View for GenerationalIndexArray<T> {
    type V = Seq<Option<(int, T)>>;

    closed spec fn view(&self) -> Seq<Option<(int, T)>> {
        entries_view(self.entries@)
    }
}

impl<T> GenerationalIndexArray<T> {
    /// An empty array.
    pub fn new() -> (r: GenerationalIndexArray<T>)
        ensures
            r@.len() == 0,
    {
        GenerationalIndexArray { entries: Vec::new() }
    }

    /// Drops every entry and resets the storage length to zero.
    pub fn clear(&mut self)
        ensures
            final(self)@.len() == 0,
    {
        self.entries.clear();
    }

    /// The number of positions the storage currently covers.
    pub(crate) fn slot_count(&self) -> (n: usize)
        ensures
            n == self@.len(),
    {
        self.entries.len()
    }

    /// The occupant of a raw position, together with the identifier it
    /// answers to.
    pub(crate) fn entry_at(&self, index: usize) -> (r: Option<(GenerationalIndex, &T)>)
        requires
            index < self@.len(),
        ensures
            match r {
                Some(pr) => pr.0.pos() == index && self@[index as int] == Some((pr.0.gen(), *pr.1)),
                None => self@[index as int] is None,
            },
    {
        match &self.entries[index] {
            Some(e) => Some((GenerationalIndex::make(index, e.generation), &e.value)),
            None => None,
        }
    }

    /// Writes `(generation, value)` at the identifier's position, growing the
    /// storage with empty entries as needed, and returns the displaced
    /// `(identifier, value)` pair if one existed — whatever generation it was
    /// stored under: overwriting across generations is permitted and
    /// reported, not rejected.
    pub fn insert(&mut self, gen_index: GenerationalIndex, value: T) -> (r: Option<
        (GenerationalIndex, T),
    >)
        requires
            gen_index.pos() < usize::MAX,
        ensures
            final(self)@ == spec_insert(old(self)@, gen_index.pos(), gen_index.gen(), value),
            match r {
                Some(pr) => pr.0.pos() == gen_index.pos() && displaced(
                    old(self)@,
                    gen_index.pos(),
                ) == Some((pr.0.gen(), pr.1)),
                None => displaced(old(self)@, gen_index.pos()) is None,
            },
    {
        let index = gen_index.index();
        while self.entries.len() <= index
            invariant
                index < usize::MAX,
                old(self).entries@.len() <= self.entries@.len(),
                self.entries@.len() == old(self).entries@.len() || self.entries@.len() <= index
                    as int + 1,
                forall|q: int|
                    0 <= q < old(self).entries@.len() ==> self.entries@[q] == old(
                        self,
                    ).entries@[q],
                forall|q: int|
                    old(self).entries@.len() <= q < self.entries@.len() ==> self.entries@[q]
                        is None,
            decreases index + 1 - self.entries.len(),
        {
            self.entries.push(None);
        }
        let entry = &mut self.entries[index];
        let old_entry = entry.take();
        let r = match old_entry {
            Some(e) => Some((GenerationalIndex::make(index, e.generation), e.value)),
            None => None,
        };
        *entry = Some(ArrayEntry { generation: gen_index.generation(), value });
        proof {
            assert(self@ =~= spec_insert(old(self)@, gen_index.pos(), gen_index.gen(), value));
        }
        r
    }

    /// Returns and clears the entry at the identifier's position only if one
    /// exists there and its stored generation matches; otherwise leaves the
    /// store untouched and returns nothing.
    pub fn remove(&mut self, gen_index: GenerationalIndex) -> (r: Option<T>)
        ensures
            r == lookup(old(self)@, gen_index.pos(), gen_index.gen()),
            final(self)@ == spec_remove(old(self)@, gen_index.pos(), gen_index.gen()),
    {
        let index = gen_index.index();
        if index < self.entries.len() {
            let entry = &mut self.entries[index];
            match entry.take() {
                Some(e) => {
                    if e.generation == gen_index.generation() {
                        proof {
                            assert(self@ =~= spec_remove(
                                old(self)@,
                                gen_index.pos(),
                                gen_index.gen(),
                            ));
                        }
                        Some(e.value)
                    } else {
                        *entry = Some(e);
                        proof {
                            assert(self@ =~= old(self)@);
                        }
                        None
                    }
                },
                None => {
                    proof {
                        assert(self@ =~= old(self)@);
                    }
                    None
                },
            }
        } else {
            None
        }
    }

    /// True iff `get` with the same identifier would find a value.
    pub fn contains_key(&self, gen_index: GenerationalIndex) -> (r: bool)
        ensures
            r == lookup(self@, gen_index.pos(), gen_index.gen()) is Some,
    {
        self.get(gen_index).is_some()
    }

    /// The value at the identifier's position, only when the stored
    /// generation matches the identifier's.
    pub fn get(&self, gen_index: GenerationalIndex) -> (r: Option<&T>)
        ensures
            match r {
                Some(v) => lookup(self@, gen_index.pos(), gen_index.gen()) == Some(*v),
                None => lookup(self@, gen_index.pos(), gen_index.gen()) is None,
            },
    {
        let index = gen_index.index();
        if index < self.entries.len() {
            match &self.entries[index] {
                Some(e) => if e.generation == gen_index.generation() {
                    Some(&e.value)
                } else {
                    None
                },
                None => None,
            }
        } else {
            None
        }
    }

    /// Mutable access to the value at the identifier's position, under the
    /// same generation-matching rule as `get`.
    pub fn get_mut(&mut self, gen_index: GenerationalIndex) -> (r: Option<&mut T>)
        ensures
            match r {
                Some(m) => {
                    &&& lookup(old(self)@, gen_index.pos(), gen_index.gen()) == Some(*m)
                    &&& final(self)@.len() == old(self)@.len()
                    &&& final(self)@[gen_index.pos()] == Some((gen_index.gen(), *final(m)))
                    &&& forall|q: int|
                        0 <= q < old(self)@.len() && q != gen_index.pos()
                            ==> final(self)@[q] == old(self)@[q]
                },
                None => lookup(old(self)@, gen_index.pos(), gen_index.gen()) is None
                    && final(self)@ == old(self)@,
            },
    {
        let index = gen_index.index();
        if index >= self.entries.len() {
            return None;
        }
        let hit = match &self.entries[index] {
            Some(e) => e.generation == gen_index.generation(),
            None => false,
        };
        if !hit {
            return None;
        }
        match &mut self.entries[index] {
            Some(e) => Some(&mut e.value),
            None => None,
        }
    }

    /// Visits every occupied position once, in increasing position order, and
    /// clears each entry whose `(identifier, value)` pair the predicate
    /// rejects.
    pub fn retain<F: Fn(GenerationalIndex, &T) -> bool>(&mut self, f: F)
        requires
            forall|id: GenerationalIndex, v: &T| #[trigger] f.requires((id, v)),
        ensures
            final(self)@.len() == old(self)@.len(),
            forall|p: int|
                0 <= p < old(self)@.len() && old(self)@[p] is None
                    ==> #[trigger] final(self)@[p] is None,
            forall|p: int|
                0 <= p < old(self)@.len() ==> match #[trigger] old(self)@[p] {
                    Some(e) => {
                        ||| (final(self)@[p] == old(self)@[p] && f.ensures(
                            (id_at(p, e.0), &e.1),
                            true,
                        ))
                        ||| (final(self)@[p] is None && f.ensures((id_at(p, e.0), &e.1), false))
                    },
                    None => true,
                },
    {
        let n = self.entries.len();
        let mut i: usize = 0;
        while i < n
            invariant
                i <= n,
                n == self.entries@.len(),
                n == old(self).entries@.len(),
                forall|id: GenerationalIndex, v: &T| #[trigger] f.requires((id, v)),
                forall|q: int| i <= q < n ==> self.entries@[q] == old(self).entries@[q],
                forall|q: int|
                    0 <= q < i && entries_view(old(self).entries@)[q] is None
                        ==> #[trigger] self.entries@[q] is None,
                forall|q: int|
                    0 <= q < i ==> match #[trigger] entries_view(old(self).entries@)[q] {
                        Some(e) => {
                            ||| (entries_view(self.entries@)[q] == entries_view(
                                old(self).entries@,
                            )[q] && f.ensures((id_at(q, e.0), &e.1), true))
                            ||| (entries_view(self.entries@)[q] is None && f.ensures(
                                (id_at(q, e.0), &e.1),
                                false,
                            ))
                        },
                        None => true,
                    },
            decreases n - i,
        {
            let keep = match &self.entries[i] {
                Some(e) => {
                    let id = GenerationalIndex::make(i, e.generation);
                    f(id, &e.value)
                },
                None => false,
            };
            if !keep {
                self.entries[i] = None;
            }
            i += 1;
        }
    }

    /// Visits every occupied position once, in increasing position order,
    /// giving the function ownership of each value; a returned value is
    /// stored back at the same position and generation, and a returned
    /// `None` empties the entry.
    pub fn filter_map<F: Fn(GenerationalIndex, T) -> Option<T>>(&mut self, f: F)
        requires
            forall|id: GenerationalIndex, v: T| #[trigger] f.requires((id, v)),
        ensures
            final(self)@.len() == old(self)@.len(),
            forall|p: int|
                0 <= p < old(self)@.len() && old(self)@[p] is None
                    ==> #[trigger] final(self)@[p] is None,
            forall|p: int|
                0 <= p < old(self)@.len() ==> match #[trigger] old(self)@[p] {
                    Some(e) => {
                        ||| (final(self)@[p] matches Some(e2) && e2.0 == e.0 && f.ensures(
                            (id_at(p, e.0), e.1),
                            Some(e2.1),
                        ))
                        ||| (final(self)@[p] is None && f.ensures((id_at(p, e.0), e.1), None))
                    },
                    None => true,
                },
    {
        let n = self.entries.len();
        let mut i: usize = 0;
        while i < n
            invariant
                i <= n,
                n == self.entries@.len(),
                n == old(self).entries@.len(),
                forall|id: GenerationalIndex, v: T| #[trigger] f.requires((id, v)),
                forall|q: int| i <= q < n ==> self.entries@[q] == old(self).entries@[q],
                forall|q: int|
                    0 <= q < i && entries_view(old(self).entries@)[q] is None
                        ==> #[trigger] self.entries@[q] is None,
                forall|q: int|
                    0 <= q < i ==> match #[trigger] entries_view(old(self).entries@)[q] {
                        Some(e) => {
                            ||| (entries_view(self.entries@)[q] matches Some(e2) && e2.0 == e.0
                                && f.ensures((id_at(q, e.0), e.1), Some(e2.1)))
                            ||| (entries_view(self.entries@)[q] is None && f.ensures(
                                (id_at(q, e.0), e.1),
                                None,
                            ))
                        },
                        None => true,
                    },
            decreases n - i,
        {
            let entry = &mut self.entries[i];
            match entry.take() {
                Some(e) => {
                    let generation = e.generation;
                    let id = GenerationalIndex::make(i, generation);
                    let out = f(id, e.value);
                    let ghost shadow = out;
                    match out {
                        Some(value) => {
                            *entry = Some(ArrayEntry { generation, value });
                        },
                        None => {},
                    }
                    proof {
                        assert(f.ensures((id_at(i as int, generation as int), e.value), shadow));
                        assert(entries_view(self.entries@)[i as int] == (match shadow {
                            Some(v2) => Some((generation as int, v2)),
                            None => None::<(int, T)>,
                        }));
                    }
                },
                None => {},
            }
            i += 1;
        }
    }

    /// A borrowing iterator over the occupied positions, in increasing
    /// position order.
    pub fn iter<'a>(&'a self) -> (r: GenerationalIndexArrayIter<'a, T>)
        ensures
            r.contents() == self@,
            r.cursor() == 0,
            r.wf(),
    {
        GenerationalIndexArrayIter::new(self)
    }

    /// A consuming iterator over the occupied positions, in increasing
    /// position order.
    pub fn into_iter(self) -> (r: GenerationalIndexArrayIntoIter<T>)
        ensures
            r.remaining() == occupied_pairs(self@),
    {
        let ghost orig = self@;
        let mut entries = self.entries;
        let mut rev: Vec<(GenerationalIndex, T)> = Vec::new();
        proof {
            assert(rev@.reverse() =~= Seq::<(GenerationalIndex, T)>::empty());
            assert(occupied_pairs(orig) =~= occupied_pairs(entries_view(entries@))
                + rev@.reverse());
        }
        while entries.len() > 0
            invariant
                occupied_pairs(orig) == occupied_pairs(entries_view(entries@)) + rev@.reverse(),
            decreases entries@.len(),
        {
            let ghost prev = entries@;
            let ghost rev0 = rev@;
            if let Some(op) = entries.pop() {
                let ghost shadow = op;
                match op {
                    Some(e) => {
                        let id = GenerationalIndex::make(entries.len(), e.generation);
                        rev.push((id, e.value));
                    },
                    None => {},
                }
                proof {
                    let s_prev = entries_view(prev);
                    assert(entries_view(entries@) =~= s_prev.drop_last());
                    assert(s_prev.last() == (match shadow {
                        Some(e) => Some((e.generation as int, e.value)),
                        None => None::<(int, T)>,
                    }));
                    match shadow {
                        Some(e) => {
                            let pair = (id_at(s_prev.len() - 1, e.generation as int), e.value);
                            assert(occupied_pairs(s_prev) == occupied_pairs(s_prev.drop_last())
                                + seq![pair]);
                            assert(rev@.reverse() =~= seq![pair] + rev0.reverse());
                            assert(occupied_pairs(s_prev.drop_last()) + (seq![pair]
                                + rev0.reverse()) =~= (occupied_pairs(s_prev.drop_last())
                                + seq![pair]) + rev0.reverse());
                        },
                        None => {
                            assert(occupied_pairs(s_prev) + rev0.reverse() =~= occupied_pairs(
                                s_prev.drop_last(),
                            ) + rev0.reverse());
                        },
                    }
                }
            }
        }
        proof {
            assert(entries_view(entries@).len() == 0);
            assert(occupied_pairs(orig) =~= rev@.reverse());
        }
        GenerationalIndexArrayIntoIter::from_rev(rev)
    }

    /// Builds an array by inserting each `(identifier, value)` pair in
    /// sequence order; a later pair at the same position displaces an
    /// earlier one, exactly as repeated `insert` calls would.
    pub fn from_pairs(pairs: Vec<(GenerationalIndex, T)>) -> (r: GenerationalIndexArray<T>)
        requires
            forall|k: int| 0 <= k < pairs@.len() ==> (#[trigger] pairs@[k]).0.pos() < usize::MAX,
        ensures
            r@ == spec_from_pairs(pairs@),
    {
        let ghost all = pairs@;
        let mut pairs = pairs;
        let mut map = GenerationalIndexArray::new();
        proof {
            assert(all.take(0) =~= Seq::<(GenerationalIndex, T)>::empty());
            assert(map@ =~= spec_from_pairs(all.take(0)));
        }
        let ghost mut k: int = 0;
        while pairs.len() > 0
            invariant
                0 <= k <= all.len(),
                pairs@ == all.skip(k),
                map@ == spec_from_pairs(all.take(k)),
                forall|j: int| 0 <= j < all.len() ==> (#[trigger] all[j]).0.pos() < usize::MAX,
            decreases pairs@.len(),
        {
            let pair = pairs.remove(0);
            let (entity, value) = pair;
            map.insert(entity, value);
            proof {
                assert(all.take(k + 1).drop_last() =~= all.take(k));
                assert(all.take(k + 1).last() == all[k]);
                assert(pairs@ =~= all.skip(k + 1));
                k = k + 1;
            }
        }
        proof {
            assert(all.take(k) =~= all);
        }
        map
    }
}

/// Every array's view has bounded generations and a length that fits in
/// `usize`.
pub proof fn lemma_view_bounded<T>(a: &GenerationalIndexArray<T>)
    ensures
        entries_bounded(a@),
        a@.len() <= usize::MAX,
{
    let n = vstd::std_specs::vec::spec_vec_len(&a.entries);
    assert(a@.len() == n);
}

/// Each occupied pair records an entry of the store: its identifier's
/// position is in range, and the entry there carries exactly its generation
/// and value.
pub proof fn lemma_occupied_pairs_membership<T>(s: Seq<Option<(int, T)>>, k: int)
    requires
        entries_bounded(s),
        s.len() <= usize::MAX,
        0 <= k < occupied_pairs(s).len(),
    ensures
        0 <= occupied_pairs(s)[k].0.pos() < s.len(),
        s[occupied_pairs(s)[k].0.pos()] == Some(
            (occupied_pairs(s)[k].0.gen(), occupied_pairs(s)[k].1),
        ),
    decreases s.len(),
{
    broadcast use lemma_id_at_parts;

    let prefix = s.drop_last();
    if s.len() > 0 && k < occupied_pairs(prefix).len() {
        lemma_occupied_pairs_membership(prefix, k);
    }
}

/// Iteration order: the occupied pairs are listed in strictly increasing
/// position order.
pub proof fn lemma_occupied_pairs_sorted<T>(s: Seq<Option<(int, T)>>, i: int, j: int)
    requires
        entries_bounded(s),
        s.len() <= usize::MAX,
        0 <= i < j < occupied_pairs(s).len(),
    ensures
        occupied_pairs(s)[i].0.pos() < occupied_pairs(s)[j].0.pos(),
    decreases s.len(),
{
    broadcast use lemma_id_at_parts;

    let prefix = s.drop_last();
    if j < occupied_pairs(prefix).len() {
        lemma_occupied_pairs_sorted(prefix, i, j);
    } else {
        lemma_occupied_pairs_membership(prefix, i);
    }
}

/// Iteration completeness: every occupied position of the store appears
/// among the occupied pairs, with its stored generation and value.
pub proof fn lemma_occupied_pairs_complete<T>(s: Seq<Option<(int, T)>>, p: int)
    requires
        entries_bounded(s),
        s.len() <= usize::MAX,
        0 <= p < s.len(),
    ensures
        s[p] matches Some(e) ==> exists|k: int|
            0 <= k < occupied_pairs(s).len() && #[trigger] occupied_pairs(s)[k] == (
                id_at(p, e.0),
                e.1,
            ),
    decreases s.len(),
{
    broadcast use lemma_id_at_parts;

    let prefix = s.drop_last();
    match s[p] {
        Some(e) => {
            if p < s.len() - 1 {
                lemma_occupied_pairs_complete(prefix, p);
                let k = choose|k: int|
                    0 <= k < occupied_pairs(prefix).len() && #[trigger] occupied_pairs(prefix)[k]
                        == (id_at(p, e.0), e.1);
                assert(occupied_pairs(s)[k] == occupied_pairs(prefix)[k]);
            } else {
                assert(occupied_pairs(s)[occupied_pairs(s).len() - 1] == (id_at(p, e.0), e.1));
            }
        },
        None => {},
    }
}

/// Array generation isolation: after inserting `v1` under `(p, g)` and then
/// `v2` under `(p, g + 1)`, a lookup or removal under `(p, g)` finds
/// nothing and leaves `v2` in place, while `(p, g + 1)` finds `v2`.
pub proof fn lemma_generation_isolation<T>(s: Seq<Option<(int, T)>>, p: int, g: int, v1: T, v2: T)
    requires
        0 <= p,
    ensures
        lookup(spec_insert(spec_insert(s, p, g, v1), p, g + 1, v2), p, g) is None,
        lookup(spec_insert(spec_insert(s, p, g, v1), p, g + 1, v2), p, g + 1) == Some(v2),
        spec_remove(spec_insert(spec_insert(s, p, g, v1), p, g + 1, v2), p, g) == spec_insert(
            spec_insert(s, p, g, v1),
            p,
            g + 1,
            v2,
        ),
{
}

/// Round trip: a removal right after an insertion with the same identifier
/// returns the inserted value, and a further lookup finds nothing.
pub proof fn lemma_round_trip<T>(s: Seq<Option<(int, T)>>, p: int, g: int, v: T)
    requires
        0 <= p,
    ensures
        lookup(spec_insert(s, p, g, v), p, g) == Some(v),
        lookup(spec_remove(spec_insert(s, p, g, v), p, g), p, g) is None,
{
}

} // verus!
