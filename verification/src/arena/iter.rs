//! Traversals of an arena's live entries, in storage order.

use super::id::ArenaId;
use super::id::Handle;
use super::model::lemma_live_from_update;
use super::model::live_from;
use super::model::ArenaModel;
use super::model::Slot;
use super::Arena;
use super::EntryMut;
use super::EntryRef;
use vstd::prelude::*;

verus! {

/// A traversal of the live values of an arena.
pub struct IterArena<'a, T> {
    arena: &'a Arena<T>,
    pos: usize,
}

impl<'a, T> IterArena<'a, T> {
    /// The arena being traversed.
    pub closed spec fn source(&self) -> ArenaModel<T> {
        self.arena@
    }

    /// The storage position the traversal has reached.
    pub closed spec fn position(&self) -> nat {
        self.pos as nat
    }

    /// The handles of the entries still to come, in the order they come.
    pub open spec fn remaining(&self) -> Seq<Handle> {
        live_from(self.source().slots, self.position() as int)
    }

    /// A traversal of `arena` from its first slot.
    pub(crate) fn start(arena: &'a Arena<T>) -> (r: Self)
        ensures
            r.source() == arena@,
            r.position() == 0,
    {
        IterArena { arena, pos: 0 }
    }

    /// The next live entry in storage order; freed slots are passed over.
    /// `None` once no live entry is left.
    pub fn next(&mut self) -> (r: Option<EntryRef<'a, T>>)
        requires
            old(self).source().wf(),
        ensures
            final(self).source() == old(self).source(),
            match r {
                Some(e) => {
                    &&& old(self).remaining().len() > 0
                    &&& e.generation == old(self).remaining()[0].generation
                    &&& old(self).source().lookup(old(self).remaining()[0]) == Some(*e.value)
                    &&& final(self).remaining() == old(self).remaining().drop_first()
                },
                None => old(self).remaining().len() == 0 && final(self).remaining().len() == 0,
            },
    {
        let arena: &'a Arena<T> = self.arena;
        let total = arena.len();
        while self.pos < total
            invariant
                self.arena == arena,
                old(self).arena == arena,
                total == arena@.slots.len(),
                arena@.wf(),
                live_from(arena@.slots, self.pos as int) == live_from(
                    arena@.slots,
                    old(self).pos as int,
                ),
            decreases total - self.pos,
        {
            let i = self.pos;
            self.pos = i + 1;
            match arena.slot(i) {
                Slot::Occupied { value, generation } => {
                    assert(live_from(arena@.slots, i + 1) =~= live_from(
                        arena@.slots,
                        i as int,
                    ).drop_first());
                    return Some(EntryRef { value, generation: *generation });
                },
                Slot::Freed { .. } => {},
            }
        }
        None
    }
}

/// A traversal of the handles of the live values of an arena.
pub struct IterArenaIds<'a, T> {
    arena: &'a Arena<T>,
    pos: usize,
}

impl<'a, T> IterArenaIds<'a, T> {
    /// The arena being traversed.
    pub closed spec fn source(&self) -> ArenaModel<T> {
        self.arena@
    }

    /// The storage position the traversal has reached.
    pub closed spec fn position(&self) -> nat {
        self.pos as nat
    }

    /// The handles still to come, in the order they come.
    pub open spec fn remaining(&self) -> Seq<Handle> {
        live_from(self.source().slots, self.position() as int)
    }

    /// A traversal of `arena` from its first slot.
    pub(crate) fn start(arena: &'a Arena<T>) -> (r: Self)
        ensures
            r.source() == arena@,
            r.position() == 0,
    {
        IterArenaIds { arena, pos: 0 }
    }

    /// The handle of the next live entry in storage order; freed slots are
    /// passed over. `None` once no live entry is left.
    pub fn next(&mut self) -> (r: Option<ArenaId<T>>)
        requires
            old(self).source().wf(),
        ensures
            final(self).source() == old(self).source(),
            match r {
                Some(id) => {
                    &&& old(self).remaining().len() > 0
                    &&& id@ == old(self).remaining()[0]
                    &&& final(self).remaining() == old(self).remaining().drop_first()
                },
                None => old(self).remaining().len() == 0 && final(self).remaining().len() == 0,
            },
    {
        let arena: &'a Arena<T> = self.arena;
        let total = arena.len();
        while self.pos < total
            invariant
                self.arena == arena,
                old(self).arena == arena,
                total == arena@.slots.len(),
                arena@.wf(),
                live_from(arena@.slots, self.pos as int) == live_from(
                    arena@.slots,
                    old(self).pos as int,
                ),
            decreases total - self.pos,
        {
            let i = self.pos;
            self.pos = i + 1;
            match arena.slot(i) {
                Slot::Occupied { generation, .. } => {
                    assert(live_from(arena@.slots, i + 1) =~= live_from(
                        arena@.slots,
                        i as int,
                    ).drop_first());
                    return Some(ArenaId::from_parts(i as u32, *generation));
                },
                Slot::Freed { .. } => {},
            }
        }
        None
    }
}

/// An exclusive traversal of the live values of an arena, through which
/// they can be written.
pub struct IterArenaMut<'a, T> {
    /// The arena being traversed.
    pub arena: &'a mut Arena<T>,
    /// The storage position the traversal has reached.
    pub pos: usize,
}

impl<'a, T> IterArenaMut<'a, T> {
    /// The arena being traversed, as it stands now.
    pub open spec fn source(&self) -> ArenaModel<T> {
        (*self.arena)@
    }

    /// Whether the arena being traversed satisfies its invariant.
    pub open spec fn wf(&self) -> bool {
        self.arena.wf()
    }

    /// The storage position the traversal has reached.
    pub open spec fn position(&self) -> nat {
        self.pos as nat
    }

    /// The handles of the entries still to come, in the order they come.
    pub open spec fn remaining(&self) -> Seq<Handle> {
        live_from(self.source().slots, self.position() as int)
    }

    /// A traversal of `arena` from its first slot.
    pub(crate) fn start(arena: &'a mut Arena<T>) -> (r: Self)
        requires
            old(arena).wf(),
        ensures
            r.wf(),
            *r.arena == *old(arena),
            *final(r.arena) == *final(arena),
            r.source() == old(arena)@,
            r.position() == 0,
    {
        IterArenaMut { arena, pos: 0 }
    }

    /// The next live entry in storage order, for writing; freed slots are
    /// passed over. `None` once no live entry is left. What is written
    /// through the entry replaces the stored value; nothing else changes.
    pub fn next(&mut self) -> (r: Option<EntryMut<'_, T>>)
        requires
            old(self).wf(),
        ensures
            final(self).wf(),
            final(self).source().wf(),
            *final(final(self).arena) == *final(old(self).arena),
            match r {
                Some(e) => {
                    &&& old(self).remaining().len() > 0
                    &&& e.generation == old(self).remaining()[0].generation
                    &&& old(self).source().lookup(old(self).remaining()[0]) == Some(*e.value)
                    &&& final(self).source() == old(self).source().replace(
                        old(self).remaining()[0],
                        *final(e.value),
                    )
                    &&& final(self).remaining() == old(self).remaining().drop_first()
                },
                None => {
                    &&& old(self).remaining().len() == 0
                    &&& final(self).remaining().len() == 0
                    &&& final(self).source() == old(self).source()
                },
            },
    {
        let total = self.arena.len();
        while self.pos < total
            invariant
                self.arena == old(self).arena,
                total == self.arena@.slots.len(),
                self.arena.wf(),
                live_from(self.arena@.slots, self.pos as int) == live_from(
                    self.arena@.slots,
                    old(self).pos as int,
                ),
            decreases total - self.pos,
        {
            let i = self.pos;
            self.pos = i + 1;
            let found = match self.arena.slot(i) {
                Slot::Occupied { generation, .. } => Some(*generation),
                Slot::Freed { .. } => None,
            };
            if let Some(generation) = found {
                let ghost slots = self.arena@.slots;
                proof {
                    assert(live_from(slots, i + 1) =~= live_from(slots, i as int).drop_first());
                    assert forall|v: T| #[trigger]
                        live_from(
                            slots.update(i as int, Slot::Occupied { value: v, generation }),
                            i + 1,
                        ) == live_from(slots, i + 1) by {
                        lemma_live_from_update(
                            slots,
                            i as int,
                            Slot::Occupied { value: v, generation },
                            i + 1,
                        );
                    }
                }
                return self.arena.try_entry_mut(ArenaId::from_parts(i as u32, generation));
            }
        }
        None
    }
}

} // verus!
