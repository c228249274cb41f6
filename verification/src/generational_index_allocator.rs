use vstd::prelude::*;

use crate::generational_index::GenerationalIndex;

verus! {

/// The mathematical state of one slot: whether it is currently live, and the
/// generation that is (or will next be) issued for it.
#[verifier::ext_equal]
pub ghost struct SlotModel {
    pub live: bool,
    pub generation: int,
}

/// The mathematical state of an allocator: the dense slot table and the free
/// list of positions available for reuse.
#[verifier::ext_equal]
pub ghost struct AllocatorModel {
    pub slots: Seq<SlotModel>,
    pub free: Seq<int>,
}

impl AllocatorModel {
    /// The allocator's internal invariant: the free list holds exactly the
    /// dead positions of the slot table, each at most once.
    pub open spec fn wf(self) -> bool {
        &&& forall|i: int|
            0 <= i < self.free.len() ==> 0 <= #[trigger] self.free[i] < self.slots.len()
                && !self.slots[self.free[i]].live
        &&& forall|i: int, j: int|
            0 <= i < self.free.len() && 0 <= j < self.free.len() && i != j
                ==> #[trigger] self.free[i] != #[trigger] self.free[j]
        &&& forall|p: int|
            0 <= p < self.slots.len() && !(#[trigger] self.slots[p]).live
                ==> self.free.contains(p)
    }

    /// The position the next allocation returns: the most recently freed
    /// position if any is free, else a fresh position at the end of the table.
    pub open spec fn alloc_pos(self) -> int {
        if self.free.len() > 0 {
            self.free.last()
        } else {
            self.slots.len() as int
        }
    }

    /// The generation the next allocation issues.
    pub open spec fn alloc_gen(self) -> int {
        if self.free.len() > 0 {
            self.slots[self.free.last()].generation
        } else {
            0
        }
    }

    /// The state after one allocation.
    pub open spec fn spec_allocate(self) -> AllocatorModel {
        if self.free.len() > 0 {
            AllocatorModel {
                slots: self.slots.update(
                    self.free.last(),
                    SlotModel { live: true, generation: self.slots[self.free.last()].generation },
                ),
                free: self.free.drop_last(),
            }
        } else {
            AllocatorModel {
                slots: self.slots.push(SlotModel { live: true, generation: 0 }),
                free: self.free,
            }
        }
    }

    /// Whether deallocating an identifier at position `p` succeeds: only the
    /// position and the slot's current liveness are consulted.
    pub open spec fn dealloc_ok(self, p: int) -> bool {
        0 <= p < self.slots.len() && self.slots[p].live
    }

    /// The state after deallocating position `p`; unchanged when the
    /// deallocation is a no-op.
    pub open spec fn spec_deallocate(self, p: int) -> AllocatorModel {
        if self.dealloc_ok(p) {
            AllocatorModel {
                slots: self.slots.update(
                    p,
                    SlotModel { live: false, generation: self.slots[p].generation + 1 },
                ),
                free: self.free.push(p),
            }
        } else {
            self
        }
    }

    /// Whether the identifier `(p, g)` is live: its position is in range, the
    /// slot is live, and the slot's current generation equals `g`.
    pub open spec fn live_id(self, p: int, g: int) -> bool {
        0 <= p < self.slots.len() && self.slots[p].live && self.slots[p].generation == g
    }
}

struct AllocatorEntry {
    is_live: bool,
    generation: u64,
}

/// Allocates `GenerationalIndex` identifiers without duplication.
pub struct GenerationalIndexAllocator {
    entries: Vec<AllocatorEntry>,
    free: Vec<usize>,
}

impl View for GenerationalIndexAllocator {
    type V = AllocatorModel;

    closed spec fn view(&self) -> AllocatorModel {
        AllocatorModel {
            slots: Seq::new(
                self.entries@.len(),
                |i: int| SlotModel {
                    live: self.entries@[i].is_live,
                    generation: self.entries@[i].generation as int,
                },
            ),
            free: Seq::new(self.free@.len(), |i: int| self.free@[i] as int),
        }
    }
}

impl GenerationalIndexAllocator {
    /// Every generation stored in the table fits in `u64`; needed to show
    /// that incrementing a generation below `u64::MAX` cannot overflow.
    pub closed spec fn gen_bounded(self) -> bool {
        forall|p: int|
            0 <= p < self@.slots.len() ==> 0 <= (#[trigger] self@.slots[p]).generation <= u64::MAX
    }

    /// A new allocator with no slots and an empty free list.
    pub fn new() -> (r: GenerationalIndexAllocator)
        ensures
            r@.slots.len() == 0,
            r@.free.len() == 0,
            r@.wf(),
            r.gen_bounded(),
    {
        GenerationalIndexAllocator { entries: Vec::new(), free: Vec::new() }
    }

    /// Issues a live identifier: reuses the most recently freed position with
    /// the slot's current generation, or appends a fresh slot at generation 0.
    pub fn allocate(&mut self) -> (id: GenerationalIndex)
        requires
            old(self)@.wf(),
        ensures
            final(self)@ == old(self)@.spec_allocate(),
            final(self)@.wf(),
            id.pos() == old(self)@.alloc_pos(),
            id.gen() == old(self)@.alloc_gen(),
            final(self)@.live_id(id.pos(), id.gen()),
            old(self).gen_bounded() ==> final(self).gen_bounded(),
    {
        proof {
            lemma_wf_allocate(old(self)@);
        }
        if let Some(index) = self.free.pop() {
            let id_entry = &mut self.entries[index];
            assert(!id_entry.is_live);
            id_entry.is_live = true;
            let generation = id_entry.generation;
            let id = GenerationalIndex::make(index, generation);
            proof {
                assert(self@.slots =~= old(self)@.spec_allocate().slots);
                assert(self@.free =~= old(self)@.spec_allocate().free);
                assert(self@ =~= old(self)@.spec_allocate());
            }
            id
        } else {
            self.entries.push(AllocatorEntry { is_live: true, generation: 0 });
            let index = self.entries.len() - 1;
            let id = GenerationalIndex::make(index, 0);
            proof {
                assert(self@.slots =~= old(self)@.spec_allocate().slots);
                assert(self@.free =~= old(self)@.spec_allocate().free);
                assert(self@ =~= old(self)@.spec_allocate());
            }
            id
        }
    }

    /// Frees the slot at the identifier's position, if that position is in
    /// range and currently live; bumps the slot's generation and pushes the
    /// position onto the free list.  Only the position and the slot's
    /// liveness are consulted: the argument's generation is not checked, so
    /// callers must pass the identifier most recently returned for that
    /// position.
    pub fn deallocate(&mut self, gen_index: GenerationalIndex) -> (r: bool)
        requires
            old(self)@.wf(),
            old(self).gen_bounded(),
            old(self)@.dealloc_ok(gen_index.pos())
                ==> old(self)@.slots[gen_index.pos()].generation < u64::MAX,
        ensures
            r == old(self)@.dealloc_ok(gen_index.pos()),
            final(self)@ == old(self)@.spec_deallocate(gen_index.pos()),
            final(self)@.wf(),
            final(self).gen_bounded(),
    {
        let index = gen_index.index();
        if index >= self.entries.len() {
            proof {
                assert(self@ =~= old(self)@.spec_deallocate(gen_index.pos()));
            }
            return false;
        }
        let id_entry = &mut self.entries[index];
        if !id_entry.is_live {
            proof {
                assert(self@ =~= old(self)@.spec_deallocate(gen_index.pos()));
            }
            return false;
        }
        id_entry.is_live = false;
        id_entry.generation = id_entry.generation + 1;
        self.free.push(index);
        proof {
            lemma_wf_deallocate(old(self)@, gen_index.pos());
            assert(self@.slots =~= old(self)@.spec_deallocate(gen_index.pos()).slots);
            assert(self@.free =~= old(self)@.spec_deallocate(gen_index.pos()).free);
            assert(self@ =~= old(self)@.spec_deallocate(gen_index.pos()));
        }
        true
    }

    /// True iff the identifier's position is in range, its slot is live, and
    /// the slot's current generation equals the identifier's generation.  This
    /// is the only operation that fully validates a generation.
    pub fn is_live(&self, gen_index: GenerationalIndex) -> (r: bool)
        ensures
            r == self@.live_id(gen_index.pos(), gen_index.gen()),
    {
        let index = gen_index.index();
        if index < self.entries.len() {
            let id_entry = &self.entries[index];
            id_entry.is_live && id_entry.generation == gen_index.generation()
        } else {
            false
        }
    }

    /// The number of slots ever allocated: one past the highest position ever
    /// issued.  The table never shrinks.
    pub fn max_allocated_index(&self) -> (r: usize)
        ensures
            r == self@.slots.len(),
    {
        self.entries.len()
    }

    /// If there is a live identifier at the given position, returns it; all
    /// positions past `max_allocated_index` return `None`.
    pub fn live_at_index(&self, index: usize) -> (r: Option<GenerationalIndex>)
        ensures
            match r {
                Some(id) => id.pos() == index && id.gen() == self@.slots[index as int].generation
                    && self@.live_id(id.pos(), id.gen()),
                None => !(index < self@.slots.len() && self@.slots[index as int].live),
            },
    {
        if index < self.entries.len() {
            let id_entry = &self.entries[index];
            if id_entry.is_live {
                Some(GenerationalIndex::make(index, id_entry.generation))
            } else {
                None
            }
        } else {
            None
        }
    }
}

/// One step of allocator history: an allocation, or a deallocation at a
/// given position.
pub ghost enum AllocatorOp {
    Allocate,
    Deallocate(int),
}

/// The state after one operation.
pub open spec fn apply_op(m: AllocatorModel, op: AllocatorOp) -> AllocatorModel {
    match op {
        AllocatorOp::Allocate => m.spec_allocate(),
        AllocatorOp::Deallocate(p) => m.spec_deallocate(p),
    }
}

/// The state after a whole sequence of operations, applied in order.
pub open spec fn apply_ops(m: AllocatorModel, ops: Seq<AllocatorOp>) -> AllocatorModel
    decreases ops.len(),
{
    if ops.len() == 0 {
        m
    } else {
        apply_ops(apply_op(m, ops[0]), ops.drop_first())
    }
}

/// Uniqueness: at any point in an allocator's life, two live identifiers with
/// the same position are the same identifier — so no two distinct live
/// identifiers are ever equal in position, and none in value.
pub proof fn lemma_live_unique(m: AllocatorModel, a: GenerationalIndex, b: GenerationalIndex)
    requires
        m.live_id(a.pos(), a.gen()),
        m.live_id(b.pos(), b.gen()),
        a.pos() == b.pos(),
    ensures
        a == b,
{
    crate::generational_index::lemma_id_ext(a, b);
}

/// Allocation preserves the allocator's invariant.
pub proof fn lemma_wf_allocate(m: AllocatorModel)
    requires
        m.wf(),
    ensures
        m.spec_allocate().wf(),
{
    let m2 = m.spec_allocate();
    if m.free.len() > 0 {
        let p = m.free.last();
        assert forall|q: int|
            0 <= q < m2.slots.len() && !(#[trigger] m2.slots[q]).live implies m2.free.contains(q)
        by {
            assert(q != p);
            assert(!m.slots[q].live);
            let i = choose|i: int| 0 <= i < m.free.len() && m.free[i] == q;
            assert(i != m.free.len() - 1);
            assert(m2.free[i] == q);
        }
    }
}

/// Deallocation preserves the allocator's invariant.
pub proof fn lemma_wf_deallocate(m: AllocatorModel, p: int)
    requires
        m.wf(),
    ensures
        m.spec_deallocate(p).wf(),
{
    let m2 = m.spec_deallocate(p);
    if m.dealloc_ok(p) {
        assert forall|i: int|
            0 <= i < m2.free.len() implies 0 <= #[trigger] m2.free[i] < m2.slots.len()
                && !m2.slots[m2.free[i]].live
        by {
            if i < m.free.len() {
                assert(m.free[i] != p);
            }
        }
        assert forall|q: int|
            0 <= q < m2.slots.len() && !(#[trigger] m2.slots[q]).live implies m2.free.contains(q)
        by {
            if q == p {
                assert(m2.free[m2.free.len() - 1] == p);
            } else {
                let i = choose|i: int| 0 <= i < m.free.len() && m.free[i] == q;
                assert(m2.free[i] == q);
            }
        }
    }
}

/// Any sequence of operations preserves the allocator's invariant.
pub proof fn lemma_apply_ops_wf(m: AllocatorModel, ops: Seq<AllocatorOp>)
    requires
        m.wf(),
    ensures
        apply_ops(m, ops).wf(),
    decreases ops.len(),
{
    if ops.len() > 0 {
        match ops[0] {
            AllocatorOp::Allocate => lemma_wf_allocate(m),
            AllocatorOp::Deallocate(p) => lemma_wf_deallocate(m, p),
        }
        lemma_apply_ops_wf(apply_op(m, ops[0]), ops.drop_first());
    }
}

/// No-shrink bound: no sequence of operations ever shrinks the slot table,
/// so `max_allocated_index` never decreases; frees alone leave it unchanged.
pub proof fn lemma_no_shrink(m: AllocatorModel, ops: Seq<AllocatorOp>)
    requires
        m.wf(),
    ensures
        apply_ops(m, ops).slots.len() >= m.slots.len(),
    decreases ops.len(),
{
    if ops.len() > 0 {
        let m1 = apply_op(m, ops[0]);
        match ops[0] {
            AllocatorOp::Allocate => lemma_wf_allocate(m),
            AllocatorOp::Deallocate(p) => lemma_wf_deallocate(m, p),
        }
        lemma_no_shrink(m1, ops.drop_first());
    }
}

/// While a slot stays live its generation never drops below `g`, and once it
/// has been freed past `g` its generation stays strictly above `g`.
proof fn lemma_slot_generation_step(m: AllocatorModel, ops: Seq<AllocatorOp>, p: int, g: int)
    requires
        m.wf(),
        0 <= p < m.slots.len(),
        m.slots[p].live ==> m.slots[p].generation >= g,
        !m.slots[p].live ==> m.slots[p].generation > g,
    ensures
        apply_ops(m, ops).wf(),
        apply_ops(m, ops).slots.len() >= m.slots.len(),
        apply_ops(m, ops).slots[p].live ==> apply_ops(m, ops).slots[p].generation >= g,
        !apply_ops(m, ops).slots[p].live ==> apply_ops(m, ops).slots[p].generation > g,
    decreases ops.len(),
{
    if ops.len() > 0 {
        let m1 = apply_op(m, ops[0]);
        match ops[0] {
            AllocatorOp::Allocate => lemma_wf_allocate(m),
            AllocatorOp::Deallocate(q) => lemma_wf_deallocate(m, q),
        }
        lemma_slot_generation_step(m1, ops.drop_first(), p, g);
    }
}

/// Generation monotonicity: when an allocation issues position `p`, and
/// after any further operations another allocation issues position `p`
/// again, the generation issued the second time is strictly greater than the
/// first.
pub proof fn lemma_generation_monotonic(m: AllocatorModel, ops: Seq<AllocatorOp>, p: int)
    requires
        m.wf(),
        m.alloc_pos() == p,
        apply_ops(m.spec_allocate(), ops).alloc_pos() == p,
    ensures
        apply_ops(m.spec_allocate(), ops).alloc_gen() > m.alloc_gen(),
{
    let g = m.alloc_gen();
    let m1 = m.spec_allocate();
    lemma_wf_allocate(m);
    assert(m1.slots[p].live && m1.slots[p].generation == g);
    lemma_slot_generation_step(m1, ops, p, g);
    let mf = apply_ops(m1, ops);
    if mf.free.len() > 0 {
        assert(!mf.slots[p].live);
    } else {
        assert(p < mf.slots.len());
    }
}

/// Stale rejection: after a live identifier is deallocated, the very next
/// allocation reuses its position with the generation incremented by one;
/// the old identifier is then dead and the new one live.
pub proof fn lemma_stale_rejection(m: AllocatorModel, id: GenerationalIndex)
    requires
        m.wf(),
        m.live_id(id.pos(), id.gen()),
    ensures
        m.spec_deallocate(id.pos()).alloc_pos() == id.pos(),
        m.spec_deallocate(id.pos()).alloc_gen() == id.gen() + 1,
        !m.spec_deallocate(id.pos()).spec_allocate().live_id(id.pos(), id.gen()),
        m.spec_deallocate(id.pos()).spec_allocate().live_id(id.pos(), id.gen() + 1),
{
}

/// Idempotent double-free: once a deallocation at position `p` succeeds, a
/// second deallocation at `p` is a no-op and reports failure.
pub proof fn lemma_double_free(m: AllocatorModel, p: int)
    requires
        m.dealloc_ok(p),
    ensures
        !m.spec_deallocate(p).dealloc_ok(p),
        m.spec_deallocate(p).spec_deallocate(p) == m.spec_deallocate(p),
{
}

} // verus!
