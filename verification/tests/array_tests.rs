use generational_index::GenerationalIndex;
use generational_index::GenerationalIndexAllocator;
use generational_index::GenerationalIndexArray;

/// Allocates identifiers for positions `0..count`, all at generation 0.
fn identifiers(count: usize) -> Vec<GenerationalIndex> {
    let mut allocator = GenerationalIndexAllocator::new();
    let mut ids = Vec::new();
    for _ in 0..count {
        ids.push(allocator.allocate());
    }
    ids
}

/// A pair of identifiers for the same position at generations g and g + 1.
fn successive_generations() -> (GenerationalIndex, GenerationalIndex) {
    let mut allocator = GenerationalIndexAllocator::new();
    let first = allocator.allocate();
    assert!(allocator.deallocate(first));
    let second = allocator.allocate();
    (first, second)
}

#[test]
fn insert_then_remove_round_trips() {
    let ids = identifiers(1);
    let mut array: GenerationalIndexArray<String> = GenerationalIndexArray::new();
    assert!(array.insert(ids[0], String::from("value")).is_none());
    assert_eq!(array.remove(ids[0]), Some(String::from("value")));
    assert!(array.get(ids[0]).is_none());
}

#[test]
fn generations_are_isolated() {
    let (old_id, new_id) = successive_generations();
    let mut array: GenerationalIndexArray<u32> = GenerationalIndexArray::new();
    array.insert(old_id, 1);
    let displaced = array.insert(new_id, 2);
    assert_eq!(displaced, Some((old_id, 1)));

    assert!(array.get(old_id).is_none());
    assert_eq!(array.get(new_id), Some(&2));

    assert!(array.remove(old_id).is_none());
    assert_eq!(array.get(new_id), Some(&2));
}

#[test]
fn insert_reports_the_displaced_pair() {
    let ids = identifiers(1);
    let mut array: GenerationalIndexArray<&str> = GenerationalIndexArray::new();
    assert!(array.insert(ids[0], "first").is_none());
    assert_eq!(array.insert(ids[0], "second"), Some((ids[0], "first")));
    assert_eq!(array.get(ids[0]), Some(&"second"));
}

#[test]
fn iteration_is_in_position_order_and_complete() {
    let ids = identifiers(4);
    let mut array: GenerationalIndexArray<u32> = GenerationalIndexArray::new();
    array.insert(ids[0], 10);
    array.insert(ids[3], 13);
    array.insert(ids[1], 11);

    let mut seen = Vec::new();
    let mut iter = array.iter();
    while let Some((id, value)) = iter.next() {
        seen.push((id, *value));
    }
    assert_eq!(seen, vec![(ids[0], 10), (ids[1], 11), (ids[3], 13)]);

    array.remove(ids[1]);
    let mut seen = Vec::new();
    let mut iter = array.iter();
    while let Some((id, value)) = iter.next() {
        seen.push((id, *value));
    }
    assert_eq!(seen, vec![(ids[0], 10), (ids[3], 13)]);
}

#[test]
fn iterating_an_empty_array_yields_nothing() {
    let array: GenerationalIndexArray<u32> = GenerationalIndexArray::new();
    let mut iter = array.iter();
    assert!(iter.next().is_none());
    assert!(iter.next().is_none());
}

#[test]
fn into_iter_yields_owned_pairs_in_position_order() {
    let ids = identifiers(5);
    let mut array: GenerationalIndexArray<String> = GenerationalIndexArray::new();
    array.insert(ids[2], String::from("two"));
    array.insert(ids[0], String::from("zero"));
    array.insert(ids[4], String::from("four"));

    let mut iter = array.into_iter();
    assert_eq!(iter.next(), Some((ids[0], String::from("zero"))));
    assert_eq!(iter.next(), Some((ids[2], String::from("two"))));
    assert_eq!(iter.next(), Some((ids[4], String::from("four"))));
    assert_eq!(iter.next(), None);
}

#[test]
fn contains_key_follows_get() {
    let (old_id, new_id) = successive_generations();
    let mut array: GenerationalIndexArray<u32> = GenerationalIndexArray::new();
    assert!(!array.contains_key(new_id));
    array.insert(new_id, 5);
    assert!(array.contains_key(new_id));
    assert!(!array.contains_key(old_id));
}

#[test]
fn get_mut_updates_in_place_and_rejects_stale_identifiers() {
    let (old_id, new_id) = successive_generations();
    let mut array: GenerationalIndexArray<u32> = GenerationalIndexArray::new();
    array.insert(new_id, 7);
    assert!(array.get_mut(old_id).is_none());
    if let Some(value) = array.get_mut(new_id) {
        *value = 70;
    } else {
        panic!("entry under the live identifier must be found");
    }
    assert_eq!(array.get(new_id), Some(&70));
}

#[test]
fn remove_with_wrong_generation_leaves_the_entry() {
    let (old_id, new_id) = successive_generations();
    let mut array: GenerationalIndexArray<u32> = GenerationalIndexArray::new();
    array.insert(old_id, 3);
    assert!(array.remove(new_id).is_none());
    assert_eq!(array.get(old_id), Some(&3));
}

#[test]
fn retain_keeps_only_approved_entries() {
    let ids = identifiers(4);
    let mut array: GenerationalIndexArray<u32> = GenerationalIndexArray::new();
    for (k, id) in ids.iter().enumerate() {
        array.insert(*id, k as u32);
    }
    array.retain(|_id, value| *value % 2 == 0);
    assert_eq!(array.get(ids[0]), Some(&0));
    assert!(array.get(ids[1]).is_none());
    assert_eq!(array.get(ids[2]), Some(&2));
    assert!(array.get(ids[3]).is_none());
}

#[test]
fn filter_map_rewrites_values_and_keeps_generations() {
    let ids = identifiers(3);
    let mut array: GenerationalIndexArray<u32> = GenerationalIndexArray::new();
    array.insert(ids[0], 1);
    array.insert(ids[1], 2);
    array.insert(ids[2], 3);
    array.filter_map(|_id, value| if value == 2 { None } else { Some(value * 10) });
    assert_eq!(array.get(ids[0]), Some(&10));
    assert!(array.get(ids[1]).is_none());
    assert_eq!(array.get(ids[2]), Some(&30));
}

#[test]
fn clear_empties_the_array() {
    let ids = identifiers(3);
    let mut array: GenerationalIndexArray<u32> = GenerationalIndexArray::new();
    for id in &ids {
        array.insert(*id, 1);
    }
    array.clear();
    for id in &ids {
        assert!(array.get(*id).is_none());
    }
    let mut iter = array.iter();
    assert!(iter.next().is_none());
}

#[test]
fn from_pairs_inserts_in_order_with_later_pairs_winning() {
    let ids = identifiers(3);
    let pairs = vec![(ids[0], 100), (ids[2], 102), (ids[0], 200)];
    let mut array = GenerationalIndexArray::from_pairs(pairs);
    assert_eq!(array.get(ids[0]), Some(&200));
    assert!(array.get(ids[1]).is_none());
    assert_eq!(array.get(ids[2]), Some(&102));
    assert_eq!(array.remove(ids[2]), Some(102));
}
