//! A reusable-slot identity allocator and a generation-checked sparse array.
//!
//! [`GenerationalIndexAllocator`] hands out compact [`GenerationalIndex`]
//! identifiers whose positions are recycled after being freed; every reuse of
//! a position bumps its generation counter, so a stale identifier can never be
//! mistaken for the current occupant of the slot.
//! [`GenerationalIndexArray`] maps such identifiers to values in a flat,
//! position-indexed store and performs its own generation bookkeeping, so it
//! rejects lookups and removals made with a stale identifier.

pub mod generational_index;
pub mod generational_index_allocator;
pub mod generational_index_array;
pub mod generational_index_array_into_iter;
pub mod generational_index_array_iter;

pub use generational_index::GenerationalIndex;
pub use generational_index_allocator::GenerationalIndexAllocator;
pub use generational_index_array::GenerationalIndexArray;
pub use generational_index_array_into_iter::GenerationalIndexArrayIntoIter;
pub use generational_index_array_iter::GenerationalIndexArrayIter;
