//! The mathematical model of an arena: a sequence of slots and a stack of
//! freed positions, with the operations on them as spec functions.

use super::id::Handle;
use vstd::prelude::*;

verus! {

/// The generation given to the first occupant of a freshly grown slot.
pub const FIRST_GENERATION: u32 = 1;

/// The state of one slot of the backing storage.
pub enum Slot<T> {
    /// Holds a live value, under the generation its handle carries.
    Occupied { value: T, generation: u32 },
    /// The value is gone; `generation` is the one that was last valid.
    Freed { generation: u32 },
}

impl<T> Slot<T> {
    /// The generation the slot carries, live or not.
    pub open spec fn generation(self) -> u32 {
        match self {
            Slot::Occupied { generation, .. } => generation,
            Slot::Freed { generation } => generation,
        }
    }

    /// 1 for a live slot, 0 for a freed one.
    pub open spec fn weight(self) -> nat {
        if self is Occupied {
            1
        } else {
            0
        }
    }
}

/// The handles of the live slots at positions `pos` and above, in storage
/// order.
pub open spec fn live_from<T>(slots: Seq<Slot<T>>, pos: int) -> Seq<Handle>
    decreases slots.len() - pos,
{
    if pos < 0 || pos >= slots.len() {
        Seq::empty()
    } else {
        match slots[pos] {
            Slot::Occupied { generation, .. } => seq![Handle { index: pos as u32, generation }]
                + live_from(slots, pos + 1),
            Slot::Freed { .. } => live_from(slots, pos + 1),
        }
    }
}

/// An arena as a mathematical value.
pub struct ArenaModel<T> {
    /// Every slot ever allocated, in storage order.
    pub slots: Seq<Slot<T>>,
    /// The freed positions awaiting reuse, each with the generation that was
    /// last valid there. The last element is reused first.
    pub free: Seq<Handle>,
}

impl<T> ArenaModel<T> {
    /// The arena with no slot.
    pub open spec fn empty() -> Self {
        ArenaModel { slots: Seq::empty(), free: Seq::empty() }
    }

    /// The structural invariant of an arena.
    pub open spec fn wf(self) -> bool {
        &&& self.slots.len() <= u32::MAX as nat + 1
        &&& forall|i: int|
            0 <= i < self.slots.len() ==> (#[trigger] self.slots[i]).generation()
                >= FIRST_GENERATION
        &&& forall|k: int|
            0 <= k < self.free.len() ==> {
                &&& (#[trigger] self.free[k]).index < self.slots.len()
                &&& self.slots[self.free[k].index as int] == (Slot::<T>::Freed {
                    generation: self.free[k].generation,
                })
            }
        &&& forall|j: int, k: int|
            0 <= j < k < self.free.len() ==> (#[trigger] self.free[j]).index != (
            #[trigger] self.free[k]).index
        &&& forall|i: int|
            0 <= i < self.slots.len() && (#[trigger] self.slots[i]) is Freed ==> self.listed(i)
        &&& self.count() + self.free.len() == self.slots.len()
    }

    /// Whether position `i` is on the free stack.
    pub open spec fn listed(self, i: int) -> bool {
        exists|k: int| 0 <= k < self.free.len() && (#[trigger] self.free[k]).index == i
    }

    /// Total number of slots ever allocated, freed ones included.
    pub open spec fn len(self) -> nat {
        self.slots.len()
    }

    /// Number of live values.
    pub open spec fn count(self) -> nat {
        live_from(self.slots, 0).len()
    }

    /// The handles of the live values, in storage order.
    pub open spec fn live(self) -> Seq<Handle> {
        live_from(self.slots, 0)
    }

    /// Whether `h` names a slot that was ever allocated.
    pub open spec fn in_range(self, h: Handle) -> bool {
        (h.index as int) < self.slots.len()
    }

    /// Whether `h` refers to a live value: its slot exists, is occupied, and
    /// carries the handle's generation.
    pub open spec fn valid(self, h: Handle) -> bool {
        &&& self.in_range(h)
        &&& self.slots[h.index as int] is Occupied
        &&& self.slots[h.index as int].generation() == h.generation
    }

    /// The value `h` refers to, if it is valid.
    pub open spec fn lookup(self, h: Handle) -> Option<T> {
        if self.valid(h) {
            Some(self.slots[h.index as int]->value)
        } else {
            None
        }
    }

    /// Whether an allocation can be numbered: the slot to reuse has a
    /// generation left, or the position of a new slot still fits a handle.
    pub open spec fn can_add(self) -> bool {
        if self.free.len() > 0 {
            self.free.last().generation < u32::MAX
        } else {
            self.slots.len() <= u32::MAX
        }
    }

    /// The handle the next allocation returns.
    pub open spec fn next_handle(self) -> Handle {
        if self.free.len() > 0 {
            Handle {
                index: self.free.last().index,
                generation: (self.free.last().generation + 1) as u32,
            }
        } else {
            Handle { index: self.slots.len() as u32, generation: FIRST_GENERATION }
        }
    }

    /// The arena after allocating `value`: the most recently freed slot is
    /// reused with its generation incremented, or a new slot is appended.
    pub open spec fn add(self, value: T) -> Self {
        let h = self.next_handle();
        let slot = Slot::Occupied { value, generation: h.generation };
        if self.free.len() > 0 {
            ArenaModel {
                slots: self.slots.update(h.index as int, slot),
                free: self.free.drop_last(),
            }
        } else {
            ArenaModel { slots: self.slots.push(slot), free: self.free }
        }
    }

    /// The arena after removing `h`: a valid handle frees its slot and puts
    /// it on top of the free stack; any other handle changes nothing.
    pub open spec fn remove(self, h: Handle) -> Self {
        if self.valid(h) {
            ArenaModel {
                slots: self.slots.update(h.index as int, Slot::Freed { generation: h.generation }),
                free: self.free.push(h),
            }
        } else {
            self
        }
    }

    /// The arena after the value behind a valid handle is replaced.
    pub open spec fn replace(self, h: Handle, value: T) -> Self {
        if self.valid(h) {
            ArenaModel {
                slots: self.slots.update(
                    h.index as int,
                    Slot::Occupied { value, generation: h.generation },
                ),
                free: self.free,
            }
        } else {
            self
        }
    }
}

/// Updating one slot changes the number of live slots from `pos` on by the
/// difference of the two slots' weights, when the slot lies at or after
/// `pos`, and not at all otherwise.
pub proof fn lemma_live_len_update<T>(slots: Seq<Slot<T>>, i: int, slot: Slot<T>, pos: int)
    requires
        0 <= i < slots.len(),
        0 <= pos,
    ensures
        live_from(slots.update(i, slot), pos).len() + (if pos <= i {
            slots[i].weight()
        } else {
            0
        }) == live_from(slots, pos).len() + (if pos <= i {
            slot.weight()
        } else {
            0
        }),
    decreases slots.len() - pos,
{
    if pos < slots.len() {
        lemma_live_len_update(slots, i, slot, pos + 1);
    }
}

/// Updating one slot leaves the live slots from any later position as they
/// are.
pub proof fn lemma_live_from_update<T>(slots: Seq<Slot<T>>, i: int, slot: Slot<T>, pos: int)
    requires
        0 <= i < pos,
        i < slots.len(),
    ensures
        live_from(slots.update(i, slot), pos) == live_from(slots, pos),
    decreases slots.len() - pos,
{
    if pos < slots.len() {
        lemma_live_from_update(slots, i, slot, pos + 1);
    }
}

/// Appending a live slot adds one to the number of live slots from any
/// position within the old storage.
pub proof fn lemma_live_len_push<T>(slots: Seq<Slot<T>>, slot: Slot<T>, pos: int)
    requires
        0 <= pos <= slots.len(),
    ensures
        live_from(slots.push(slot), pos).len() == live_from(slots, pos).len() + slot.weight(),
    decreases slots.len() - pos,
{
    if pos < slots.len() {
        lemma_live_len_push(slots, slot, pos + 1);
    } else {
        assert(live_from(slots.push(slot), pos + 1) =~= Seq::<Handle>::empty());
    }
}

/// There are never more live slots from `pos` on than slots from `pos` on.
pub proof fn lemma_live_len_bound<T>(slots: Seq<Slot<T>>, pos: int)
    requires
        0 <= pos <= slots.len(),
    ensures
        live_from(slots, pos).len() <= slots.len() - pos,
    decreases slots.len() - pos,
{
    if pos < slots.len() {
        lemma_live_len_bound(slots, pos + 1);
    }
}

/// Every handle among the live slots from `pos` on names an occupied slot at
/// or after `pos` under that slot's generation, and positions ascend.
pub proof fn lemma_live_members<T>(slots: Seq<Slot<T>>, pos: int)
    requires
        0 <= pos <= slots.len(),
        slots.len() <= u32::MAX as nat + 1,
    ensures
        forall|k: int|
            0 <= k < live_from(slots, pos).len() ==> {
                let h = #[trigger] live_from(slots, pos)[k];
                &&& pos <= h.index < slots.len()
                &&& slots[h.index as int] is Occupied
                &&& slots[h.index as int].generation() == h.generation
            },
        forall|j: int, k: int|
            0 <= j < k < live_from(slots, pos).len() ==> (#[trigger] live_from(slots, pos)[j]).index
                < (#[trigger] live_from(slots, pos)[k]).index,
    decreases slots.len() - pos,
{
    if pos < slots.len() {
        lemma_live_members(slots, pos + 1);
    }
}

/// Every occupied slot at or after `pos` appears among the live slots from
/// `pos` on.
pub proof fn lemma_live_complete<T>(slots: Seq<Slot<T>>, pos: int, i: int)
    requires
        0 <= pos <= i < slots.len(),
        slots.len() <= u32::MAX as nat + 1,
        slots[i] is Occupied,
    ensures
        live_from(slots, pos).contains(
            Handle { index: i as u32, generation: slots[i].generation() },
        ),
    decreases slots.len() - pos,
{
    let h = Handle { index: i as u32, generation: slots[i].generation() };
    if pos == i {
        assert(live_from(slots, pos)[0] == h);
    } else {
        lemma_live_complete(slots, pos + 1, i);
        let rest = live_from(slots, pos + 1);
        let k = choose|k: int| 0 <= k < rest.len() && rest[k] == h;
        if slots[pos] is Occupied {
            assert(live_from(slots, pos)[k + 1] == h);
        } else {
            assert(live_from(slots, pos)[k] == h);
        }
    }
}

} // verus!
