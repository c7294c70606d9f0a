//! The handle type of the arena.

use core::cmp::Ordering;
use core::marker::PhantomData;
use vstd::prelude::*;
use vstd::std_specs::cmp::PartialEqSpecImpl;
use vstd::std_specs::cmp::PartialOrdSpecImpl;

verus! {

/// What a handle denotes: a slot position and the generation of the slot's
/// occupant at the time the handle was issued.
pub struct Handle {
    pub index: u32,
    pub generation: u32,
}

/// The placeholder handle: slot 0, generation 0. No allocation ever returns it.
pub open spec fn dangling() -> Handle {
    Handle { index: 0, generation: 0 }
}

/// A copyable handle into an `Arena<T>`. The type parameter ties the handle
/// to arenas of one value type.
#[derive(Debug)]
pub struct ArenaId<T> {
    id: u32,
    generation: u32,
    _marker: PhantomData<T>,
}

impl<T> View for ArenaId<T> {
    type V = Handle;

    closed spec fn view(&self) -> Handle {
        Handle { index: self.id, generation: self.generation }
    }
}

impl<T> Clone for ArenaId<T> {
    fn clone(&self) -> (r: Self)
        ensures
            r == *self,
    {
        Self { id: self.id, generation: self.generation, _marker: PhantomData }
    }
}

impl<T> Copy for ArenaId<T> {

}

impl<T> PartialEq for ArenaId<T> {
    fn eq(&self, other: &Self) -> (r: bool) {
        self.id == other.id && self.generation == other.generation
    }
}

impl<T> PartialEqSpecImpl for ArenaId<T> {
    open spec fn obeys_eq_spec() -> bool {
        true
    }

    open spec fn eq_spec(&self, other: &Self) -> bool {
        self@.index == other@.index && self@.generation == other@.generation
    }
}

impl<T> Eq for ArenaId<T> {

}

impl<T> PartialOrd for ArenaId<T> {
    fn partial_cmp(&self, other: &Self) -> (r: Option<Ordering>) {
        if self.id < other.id {
            Some(Ordering::Less)
        } else if self.id > other.id {
            Some(Ordering::Greater)
        } else {
            Some(Ordering::Equal)
        }
    }
}

impl<T> PartialOrdSpecImpl for ArenaId<T> {
    open spec fn obeys_partial_cmp_spec() -> bool {
        true
    }

    open spec fn partial_cmp_spec(&self, other: &Self) -> Option<Ordering> {
        if self@.index < other@.index {
            Some(Ordering::Less)
        } else if self@.index > other@.index {
            Some(Ordering::Greater)
        } else {
            Some(Ordering::Equal)
        }
    }
}

/// `u32`'s `Hash::hash` feeds the number to the hasher; nothing is claimed
/// of the hasher's state afterwards.
pub assume_specification<H: core::hash::Hasher>[ <u32 as core::hash::Hash>::hash ](
    value: &u32,
    state: &mut H,
);

impl<T> core::hash::Hash for ArenaId<T> {
    fn hash<H: core::hash::Hasher>(&self, state: &mut H) {
        self.id.hash(state);
        self.generation.hash(state);
    }
}

impl<T> Default for ArenaId<T> {
    fn default() -> (r: Self)
        ensures
            r@ == dangling(),
    {
        Self::new()
    }
}

impl<T> ArenaId<T> {
    /// The placeholder handle.
    pub fn new() -> (r: Self)
        ensures
            r@ == dangling(),
    {
        Self { id: 0, generation: 0, _marker: PhantomData }
    }

    /// The raw slot position, for keying a handle into an outside store.
    /// The generation is not part of it.
    pub fn id(&self) -> (r: u32)
        ensures
            r == self@.index,
    {
        self.id
    }

    /// Builds the handle for `index` at `generation`.
    pub(crate) fn from_parts(index: u32, generation: u32) -> (r: Self)
        ensures
            r@ == (Handle { index, generation }),
    {
        Self { id: index, generation, _marker: PhantomData }
    }

    /// The generation the handle was issued at.
    pub(crate) fn generation(&self) -> (r: u32)
        ensures
            r == self@.generation,
    {
        self.generation
    }

    /// Two handles are the same value exactly when they denote the same
    /// slot position and generation.
    pub proof fn lemma_view_injective(a: Self, b: Self)
        ensures
            a@ == b@ <==> a == b,
    {
    }
}

} // verus!
