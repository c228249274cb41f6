use generational_index::GenerationalIndex;
use generational_index::GenerationalIndexAllocator;

#[test]
fn new_allocator_is_empty() {
    let allocator = GenerationalIndexAllocator::new();
    assert_eq!(allocator.max_allocated_index(), 0);
    assert!(allocator.live_at_index(0).is_none());
}

#[test]
fn scenario_allocate_free_reuse() {
    let mut allocator = GenerationalIndexAllocator::new();
    let a = allocator.allocate();
    let b = allocator.allocate();
    let c = allocator.allocate();
    assert_eq!((a.index(), a.generation()), (0, 0));
    assert_eq!((b.index(), b.generation()), (1, 0));
    assert_eq!((c.index(), c.generation()), (2, 0));

    assert!(allocator.deallocate(b));

    let d = allocator.allocate();
    assert_eq!((d.index(), d.generation()), (1, 1));

    assert!(!allocator.is_live(b));
    assert!(allocator.is_live(d));
    assert!(allocator.is_live(a));
    assert!(allocator.is_live(c));
    assert_eq!(allocator.max_allocated_index(), 3);
}

#[test]
fn live_identifiers_are_unique() {
    let mut allocator = GenerationalIndexAllocator::new();
    let mut issued: Vec<GenerationalIndex> = Vec::new();
    for _ in 0..4 {
        issued.push(allocator.allocate());
    }
    assert!(allocator.deallocate(issued[1]));
    assert!(allocator.deallocate(issued[3]));
    issued.push(allocator.allocate());
    issued.push(allocator.allocate());
    issued.push(allocator.allocate());

    let live: Vec<GenerationalIndex> = issued
        .iter()
        .copied()
        .filter(|id| allocator.is_live(*id))
        .collect();
    for i in 0..live.len() {
        for j in 0..live.len() {
            if i != j {
                assert_ne!(live[i], live[j]);
            }
        }
    }
}

#[test]
fn generations_issued_for_a_position_strictly_increase() {
    let mut allocator = GenerationalIndexAllocator::new();
    let mut last = allocator.allocate();
    assert_eq!(last.index(), 0);
    assert_eq!(last.generation(), 0);
    for expected in 1..6 {
        assert!(allocator.deallocate(last));
        let next = allocator.allocate();
        assert_eq!(next.index(), 0);
        assert_eq!(next.generation(), expected);
        assert!(next.generation() > last.generation());
        last = next;
    }
}

#[test]
fn stale_identifier_is_rejected_after_reuse() {
    let mut allocator = GenerationalIndexAllocator::new();
    let id = allocator.allocate();
    assert!(allocator.deallocate(id));
    let id2 = allocator.allocate();
    assert_eq!(id2.index(), id.index());
    assert_eq!(id2.generation(), id.generation() + 1);
    assert!(!allocator.is_live(id));
    assert!(allocator.is_live(id2));
}

#[test]
fn double_free_reports_failure_and_changes_nothing() {
    let mut allocator = GenerationalIndexAllocator::new();
    let a = allocator.allocate();
    let b = allocator.allocate();
    assert!(allocator.deallocate(a));
    let before = (
        allocator.max_allocated_index(),
        allocator.is_live(a),
        allocator.is_live(b),
        allocator.live_at_index(0),
        allocator.live_at_index(1),
    );
    assert!(!allocator.deallocate(a));
    let after = (
        allocator.max_allocated_index(),
        allocator.is_live(a),
        allocator.is_live(b),
        allocator.live_at_index(0),
        allocator.live_at_index(1),
    );
    assert_eq!(before, after);
}

#[test]
fn freeing_everything_never_shrinks_the_table() {
    let mut allocator = GenerationalIndexAllocator::new();
    let mut issued = Vec::new();
    for _ in 0..7 {
        issued.push(allocator.allocate());
    }
    assert_eq!(allocator.max_allocated_index(), 7);
    for id in issued {
        assert!(allocator.deallocate(id));
    }
    assert_eq!(allocator.max_allocated_index(), 7);
}

#[test]
fn deallocate_out_of_range_is_a_no_op() {
    let mut allocator = GenerationalIndexAllocator::new();
    let id = allocator.allocate();
    let mut other = GenerationalIndexAllocator::new();
    for _ in 0..3 {
        other.allocate();
    }
    let far = other.live_at_index(2).unwrap();
    assert!(!allocator.deallocate(far));
    assert!(allocator.is_live(id));
    assert_eq!(allocator.max_allocated_index(), 1);
}

#[test]
fn live_at_index_reports_the_current_identifier() {
    let mut allocator = GenerationalIndexAllocator::new();
    let a = allocator.allocate();
    let b = allocator.allocate();
    assert_eq!(allocator.live_at_index(0), Some(a));
    assert_eq!(allocator.live_at_index(1), Some(b));
    assert_eq!(allocator.live_at_index(2), None);
    assert!(allocator.deallocate(a));
    assert_eq!(allocator.live_at_index(0), None);
}

#[test]
fn identifiers_order_lexicographically() {
    let mut allocator = GenerationalIndexAllocator::new();
    let a = allocator.allocate();
    let b = allocator.allocate();
    assert!(a < b);
    assert!(allocator.deallocate(a));
    let a2 = allocator.allocate();
    assert!(a < a2);
    assert!(a2 < b);
    assert_eq!(a2, allocator.live_at_index(0).unwrap());
}
