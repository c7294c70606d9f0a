//! Generational arena: a growable slot array that hands out stable, typed
//! handles and reuses freed slots under a fresh generation.

pub mod id;
pub mod iter;
pub mod laws;
pub mod model;

pub use id::ArenaId;
pub use id::Handle;
pub use iter::IterArena;
pub use iter::IterArenaIds;
pub use iter::IterArenaMut;
pub use model::ArenaModel;
pub use model::Slot;

use id::dangling;
use laws::lemma_add_preserves;
use laws::lemma_remove_preserves;
use model::lemma_live_len_bound;
use model::lemma_live_len_push;
use model::lemma_live_len_update;
use model::live_from;
use model::FIRST_GENERATION;
use vstd::prelude::*;

verus! {

/// A shared view of one live entry.
pub struct EntryRef<'e, T> {
    pub value: &'e T,
    pub generation: u32,
}

/// An exclusive view of one live entry.
pub struct EntryMut<'e, T> {
    pub value: &'e mut T,
    pub generation: u32,
}

/// A freed position and the generation that was last valid there.
struct RemovedEntry {
    index: u32,
    generation: u32,
}

/// The free stack as a sequence of handles.
spec fn free_view(entries: Seq<RemovedEntry>) -> Seq<Handle> {
    Seq::new(
        entries.len(),
        |k: int| Handle { index: entries[k].index, generation: entries[k].generation },
    )
}

/// A container that assigns stable handles to the values stored in it.
pub struct Arena<T> {
    entries: Vec<Slot<T>>,
    removed_entries: Vec<RemovedEntry>,
    count: usize,
}

impl<T> View for Arena<T> {
    type V = ArenaModel<T>;

    closed spec fn view(&self) -> ArenaModel<T> {
        ArenaModel { slots: self.entries@, free: free_view(self.removed_entries@) }
    }
}

impl<T> Arena<T> {
    /// The invariant every arena built through this interface satisfies: the
    /// model is well formed and the stored count is the number of live slots.
    pub open spec fn wf(&self) -> bool {
        &&& self@.wf()
        &&& self.counted()
    }

    /// Whether the stored count is the number of live slots.
    pub closed spec fn counted(&self) -> bool {
        self.count == self@.count()
    }

    /// An empty arena with room for 128 slots.
    pub fn new() -> (r: Self)
        ensures
            r.wf(),
            r@ == ArenaModel::<T>::empty(),
    {
        Self::with_capacity(128)
    }

    /// An empty arena with room for `capacity` slots.
    pub fn with_capacity(capacity: usize) -> (r: Self)
        ensures
            r.wf(),
            r@ == ArenaModel::<T>::empty(),
    {
        let r = Self {
            entries: Vec::with_capacity(capacity),
            removed_entries: Vec::with_capacity(16),
            count: 0,
        };
        assert(r@.free =~= Seq::<Handle>::empty());
        r
    }

    /// Number of live values.
    pub fn count(&self) -> (r: usize)
        requires
            self.wf(),
        ensures
            r == self@.count(),
            r <= self@.len(),
    {
        proof {
            lemma_live_len_bound(self@.slots, 0);
        }
        self.count
    }

    /// Number of slots ever allocated, freed ones included.
    pub fn len(&self) -> (r: usize)
        ensures
            r == self@.len(),
    {
        self.entries.len()
    }

    /// Whether `add` may be called: the slot it would reuse has a generation
    /// left, or the position of the slot it would append fits a handle.
    pub fn can_add(&self) -> (r: bool)
        ensures
            r == self@.can_add(),
    {
        let n = self.removed_entries.len();
        if n > 0 {
            self.removed_entries[n - 1].generation < u32::MAX
        } else {
            self.entries.len() <= u32::MAX as usize
        }
    }

    /// Stores `value` and returns its handle. The most recently freed slot is
    /// reused under the next generation; with no freed slot, a new slot is
    /// appended under the first generation.
    pub fn add(&mut self, value: T) -> (id: ArenaId<T>)
        requires
            old(self).wf(),
            old(self)@.can_add(),
        ensures
            final(self).wf(),
            final(self)@ == old(self)@.add(value),
            id@ == old(self)@.next_handle(),
            id@ != dangling(),
            final(self)@.lookup(id@) == Some(value),
            final(self)@.count() == old(self)@.count() + 1,
            final(self)@.len() >= old(self)@.len(),
    {
        let ghost before = self@;
        match self.removed_entries.pop() {
            Some(RemovedEntry { index, generation }) => {
                assert(before.free.last() == Handle { index, generation });
                let generation = generation + 1;
                proof {
                    lemma_live_len_update(
                        before.slots,
                        index as int,
                        Slot::Occupied { value, generation },
                        0,
                    );
                    lemma_live_len_bound(
                        before.slots.update(index as int, Slot::Occupied { value, generation }),
                        0,
                    );
                }
                self.entries.set(index as usize, Slot::Occupied { value, generation });
                self.count += 1;
                proof {
                    assert(self@.free =~= before.free.drop_last());
                    lemma_add_preserves(before, value);
                }
                ArenaId::from_parts(index, generation)
            },
            None => {
                let index = self.entries.len();
                proof {
                    lemma_live_len_push(
                        before.slots,
                        Slot::Occupied { value, generation: FIRST_GENERATION },
                        0,
                    );
                    lemma_live_len_bound(before.slots, 0);
                }
                self.entries.push(Slot::Occupied { value, generation: FIRST_GENERATION });
                // The live count never exceeds the number of slots, which now
                // is known to fit.
                let total: usize = self.entries.len();
                assert(self.count < total);
                self.count += 1;
                proof {
                    assert(self@.free =~= before.free);
                    lemma_add_preserves(before, value);
                }
                ArenaId::from_parts(index as u32, FIRST_GENERATION)
            },
        }
    }

    /// Removes the value behind `id`, if `id` is still valid: the value is
    /// dropped, the slot is freed and goes on top of the free stack. A stale
    /// or already removed handle changes nothing.
    pub fn remove(&mut self, id: ArenaId<T>)
        requires
            old(self).wf(),
            old(self)@.in_range(id@),
        ensures
            final(self).wf(),
            final(self)@ == old(self)@.remove(id@),
            !final(self)@.valid(id@),
            final(self)@.count() == old(self)@.count() - (if old(self)@.valid(id@) {
                1int
            } else {
                0int
            }),
            final(self)@.len() == old(self)@.len(),
    {
        let ghost before = self@;
        let index = id.id();
        let generation = id.generation();
        let live = match &self.entries[index as usize] {
            Slot::Occupied { generation: current, .. } => *current == generation,
            Slot::Freed { .. } => false,
        };
        if live {
            proof {
                lemma_live_len_update(before.slots, index as int, Slot::Freed { generation }, 0);
            }
            self.entries.set(index as usize, Slot::Freed { generation });
            self.removed_entries.push(RemovedEntry { index, generation });
            self.count -= 1;
            proof {
                assert(self@.free =~= before.free.push(id@));
                lemma_remove_preserves(before, id@);
            }
        }
    }

    /// The live entry behind `id`, or `None` when `id` is stale, names a freed
    /// slot, or names a slot that was never allocated.
    pub fn try_entry<'a>(&'a self, id: ArenaId<T>) -> (r: Option<EntryRef<'a, T>>)
        ensures
            match r {
                Some(e) => self@.lookup(id@) == Some(*e.value) && e.generation
                    == id@.generation,
                None => !self@.valid(id@),
            },
    {
        let index = id.id() as usize;
        if index >= self.entries.len() {
            return None;
        }
        match &self.entries[index] {
            Slot::Occupied { value, generation } => {
                if *generation == id.generation() {
                    Some(EntryRef { value, generation: *generation })
                } else {
                    None
                }
            },
            Slot::Freed { .. } => None,
        }
    }

    /// Whether `id` refers to a live value.
    pub fn contains(&self, id: ArenaId<T>) -> (r: bool)
        ensures
            r == self@.valid(id@),
    {
        self.try_entry(id).is_some()
    }

    /// The live entry behind a handle known to be valid.
    pub fn entry<'a>(&'a self, id: ArenaId<T>) -> (r: EntryRef<'a, T>)
        requires
            self@.valid(id@),
        ensures
            self@.lookup(id@) == Some(*r.value),
            r.generation == id@.generation,
    {
        self.try_entry(id).unwrap()
    }

    /// The slot at position `i`.
    pub(crate) fn slot(&self, i: usize) -> (r: &Slot<T>)
        requires
            i < self@.len(),
        ensures
            *r == self@.slots[i as int],
    {
        &self.entries[i]
    }

    /// A fresh traversal of the live entries, in storage order.
    pub fn iter<'a>(&'a self) -> (r: IterArena<'a, T>)
        ensures
            r.source() == self@,
            r.remaining() == self@.live(),
    {
        IterArena::start(self)
    }

    /// A fresh exclusive traversal of the live entries, in storage order,
    /// through which their values can be written.
    pub fn iter_mut<'a>(&'a mut self) -> (r: IterArenaMut<'a, T>)
        requires
            old(self).wf(),
        ensures
            r.wf(),
            r.source() == old(self)@,
            r.remaining() == old(self)@.live(),
            *r.arena == *old(self),
            *final(r.arena) == *final(self),
    {
        IterArenaMut::start(self)
    }

    /// A fresh traversal of the handles of the live entries, in storage
    /// order.
    pub fn iter_ids<'a>(&'a self) -> (r: IterArenaIds<'a, T>)
        ensures
            r.source() == self@,
            r.remaining() == self@.live(),
    {
        IterArenaIds::start(self)
    }

    /// The live entry behind `id`, for writing, or `None` when `id` is stale,
    /// names a freed slot, or names a slot that was never allocated. What is
    /// written through the entry replaces the stored value; nothing else
    /// changes.
    pub fn try_entry_mut<'a>(&'a mut self, id: ArenaId<T>) -> (r: Option<EntryMut<'a, T>>)
        requires
            old(self).wf(),
        ensures
            final(self).wf(),
            match r {
                Some(e) => {
                    &&& old(self)@.lookup(id@) == Some(*e.value)
                    &&& e.generation == id@.generation
                    &&& final(self)@ == old(self)@.replace(id@, *final(e.value))
                },
                None => !old(self)@.valid(id@) && final(self)@ == old(self)@,
            },
    {
        let ghost before = self@;
        let index = id.id() as usize;
        if index >= self.entries.len() {
            return None;
        }
        proof {
            assert forall|v: T| #[trigger]
                live_from(
                    before.slots.update(
                        index as int,
                        Slot::Occupied { value: v, generation: id@.generation },
                    ),
                    0,
                ).len() + before.slots[index as int].weight() == live_from(before.slots, 0).len()
                    + 1 by {
                lemma_live_len_update(
                    before.slots,
                    index as int,
                    Slot::Occupied { value: v, generation: id@.generation },
                    0,
                );
            }
        }
        let generation = id.generation();
        let live = match &self.entries[index] {
            Slot::Occupied { generation: current, .. } => *current == generation,
            Slot::Freed { .. } => false,
        };
        if !live {
            return None;
        }
        match &mut self.entries[index] {
            Slot::Occupied { value, .. } => Some(EntryMut { value, generation }),
            Slot::Freed { .. } => None,
        }
    }

    /// The live entry behind a handle known to be valid, for writing.
    pub fn entry_mut<'a>(&'a mut self, id: ArenaId<T>) -> (r: EntryMut<'a, T>)
        requires
            old(self).wf(),
            old(self)@.valid(id@),
        ensures
            final(self).wf(),
            old(self)@.lookup(id@) == Some(*r.value),
            r.generation == id@.generation,
            final(self)@ == old(self)@.replace(id@, *final(r.value)),
    {
        self.try_entry_mut(id).unwrap()
    }
}

impl<T> Default for Arena<T> {
    fn default() -> (r: Self)
        ensures
            r.wf(),
            r@ == ArenaModel::<T>::empty(),
    {
        Self::with_capacity(0)
    }
}

} // verus!
