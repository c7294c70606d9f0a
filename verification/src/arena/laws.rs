//! Laws of the arena, proved of its model. The arena's operations are
//! specified by the model's spec functions, so each law holds of the
//! executable arena as well.

use super::id::dangling;
use super::id::Handle;
use super::model::lemma_live_complete;
use super::model::lemma_live_len_bound;
use super::model::lemma_live_len_push;
use super::model::lemma_live_len_update;
use super::model::lemma_live_members;
use super::model::ArenaModel;
use super::model::Slot;
use super::model::FIRST_GENERATION;
use vstd::prelude::*;

verus! {

/// One call on an arena.
pub enum Op<T> {
    Add(T),
    Remove(Handle),
}

/// The arena after one call.
pub open spec fn step<T>(m: ArenaModel<T>, op: Op<T>) -> ArenaModel<T> {
    match op {
        Op::Add(value) => m.add(value),
        Op::Remove(h) => m.remove(h),
    }
}

/// Whether the call is within the operation's contract in state `m`.
pub open spec fn permitted<T>(m: ArenaModel<T>, op: Op<T>) -> bool {
    match op {
        Op::Add(_) => m.can_add(),
        Op::Remove(h) => m.in_range(h),
    }
}

/// The arena after the calls `ops`, made in order.
pub open spec fn run<T>(m: ArenaModel<T>, ops: Seq<Op<T>>) -> ArenaModel<T>
    decreases ops.len(),
{
    if ops.len() == 0 {
        m
    } else {
        step(run(m, ops.drop_last()), ops.last())
    }
}

/// Whether every call of `ops`, made in order from `m`, is within its
/// operation's contract.
pub open spec fn all_permitted<T>(m: ArenaModel<T>, ops: Seq<Op<T>>) -> bool
    decreases ops.len(),
{
    if ops.len() == 0 {
        true
    } else {
        all_permitted(m, ops.drop_last()) && permitted(run(m, ops.drop_last()), ops.last())
    }
}

/// Number of allocations among `ops`.
pub open spec fn adds<T>(ops: Seq<Op<T>>) -> nat
    decreases ops.len(),
{
    if ops.len() == 0 {
        0
    } else {
        adds(ops.drop_last()) + (if ops.last() is Add {
            1nat
        } else {
            0nat
        })
    }
}

/// Number of removals among `ops`, made in order from `m`, that found their
/// handle valid.
pub open spec fn removals_taken<T>(m: ArenaModel<T>, ops: Seq<Op<T>>) -> nat
    decreases ops.len(),
{
    if ops.len() == 0 {
        0
    } else {
        removals_taken(m, ops.drop_last()) + (match ops.last() {
            Op::Remove(h) => if run(m, ops.drop_last()).valid(h) {
                1nat
            } else {
                0nat
            },
            Op::Add(_) => 0nat,
        })
    }
}

/// An allocation keeps the arena well formed, adds exactly one live value,
/// never shrinks the storage, and never returns the placeholder handle.
pub proof fn lemma_add_preserves<T>(m: ArenaModel<T>, value: T)
    requires
        m.wf(),
        m.can_add(),
    ensures
        m.add(value).wf(),
        m.add(value).count() == m.count() + 1,
        m.add(value).len() >= m.len(),
        m.next_handle() != dangling(),
        !m.valid(m.next_handle()),
{
    let slot = Slot::Occupied { value, generation: m.next_handle().generation };
    let after = m.add(value);
    if m.free.len() > 0 {
        lemma_live_len_update(m.slots, m.next_handle().index as int, slot, 0);
    } else {
        lemma_live_len_push(m.slots, slot, 0);
    }
    assert forall|i: int|
        0 <= i < after.slots.len() && (#[trigger] after.slots[i]) is Freed implies after.listed(
        i,
    ) by {
        assert(m.slots[i] is Freed);
        let k = choose|k: int| 0 <= k < m.free.len() && (#[trigger] m.free[k]).index == i;
        assert(after.free[k].index == i);
    }
}

/// A removal keeps the arena well formed, takes away one live value exactly
/// when the handle was valid, and keeps the storage at its length.
pub proof fn lemma_remove_preserves<T>(m: ArenaModel<T>, h: Handle)
    requires
        m.wf(),
    ensures
        m.remove(h).wf(),
        m.remove(h).count() + (if m.valid(h) {
            1nat
        } else {
            0nat
        }) == m.count(),
        m.remove(h).len() == m.len(),
{
    if m.valid(h) {
        let after = m.remove(h);
        lemma_live_len_update(m.slots, h.index as int, Slot::Freed { generation: h.generation }, 0);
        assert forall|i: int|
            0 <= i < after.slots.len() && (#[trigger] after.slots[i]) is Freed implies after.listed(
            i,
        ) by {
            if i == h.index {
                assert(after.free[m.free.len() as int].index == i);
            } else {
                assert(m.slots[i] is Freed);
                let k = choose|k: int| 0 <= k < m.free.len() && (#[trigger] m.free[k]).index == i;
                assert(after.free[k].index == i);
            }
        }
    }
}

/// Looking up the handle an allocation returned yields the value that was
/// stored.
pub proof fn lemma_add_then_get<T>(m: ArenaModel<T>, value: T)
    requires
        m.wf(),
        m.can_add(),
    ensures
        m.add(value).valid(m.next_handle()),
        m.add(value).lookup(m.next_handle()) == Some(value),
{
}

/// An allocation leaves every handle that was valid before it valid, with
/// the same value behind it.
pub proof fn lemma_add_keeps_others<T>(m: ArenaModel<T>, value: T, h: Handle)
    requires
        m.wf(),
        m.can_add(),
        m.valid(h),
    ensures
        m.add(value).lookup(h) == m.lookup(h),
{
}

/// After a handle is removed, looking it up yields nothing.
pub proof fn lemma_remove_then_get<T>(m: ArenaModel<T>, h: Handle)
    requires
        m.wf(),
    ensures
        !m.remove(h).valid(h),
        m.remove(h).lookup(h) is None,
{
}

/// A removal leaves every other valid handle valid, with the same value
/// behind it.
pub proof fn lemma_remove_keeps_others<T>(m: ArenaModel<T>, h: Handle, other: Handle)
    requires
        m.wf(),
        m.valid(other),
        other != h,
    ensures
        m.remove(h).lookup(other) == m.lookup(other),
{
}

/// Removing a handle that is not valid changes nothing, and removing a
/// handle a second time is such a removal: no slot is ever freed twice.
pub proof fn lemma_remove_idempotent<T>(m: ArenaModel<T>, h: Handle)
    requires
        m.wf(),
    ensures
        !m.valid(h) ==> m.remove(h) == m,
        m.remove(h).remove(h) == m.remove(h),
{
}

/// After a valid handle is removed, the next allocation reuses its slot
/// under a strictly greater generation; the removed handle stays invalid and
/// the new handle yields the new value.
pub proof fn lemma_reuse_after_remove<T>(m: ArenaModel<T>, removed: Handle, value: T)
    requires
        m.wf(),
        m.valid(removed),
        removed.generation < u32::MAX,
    ensures
        m.remove(removed).can_add(),
        m.remove(removed).next_handle().index == removed.index,
        m.remove(removed).next_handle().generation > removed.generation,
        m.remove(removed).add(value).lookup(removed) is None,
        m.remove(removed).add(value).lookup(m.remove(removed).next_handle()) == Some(value),
        m.remove(removed).add(value).len() == m.len(),
{
}

/// The generation a slot carries never decreases, whatever call is made.
pub proof fn lemma_generation_monotone<T>(m: ArenaModel<T>, op: Op<T>, i: int)
    requires
        m.wf(),
        permitted(m, op),
        0 <= i < m.slots.len(),
    ensures
        i < step(m, op).slots.len(),
        step(m, op).slots[i].generation() >= m.slots[i].generation(),
{
}

/// After any sequence of calls within the operations' contracts, the arena
/// is well formed, the number of live values has grown by the number of
/// allocations less the number of removals that found their handle valid,
/// and the storage is no shorter than before.
pub proof fn lemma_count_after_calls<T>(m: ArenaModel<T>, ops: Seq<Op<T>>)
    requires
        m.wf(),
        all_permitted(m, ops),
    ensures
        run(m, ops).wf(),
        run(m, ops).count() + removals_taken(m, ops) == m.count() + adds(ops),
        run(m, ops).len() >= m.len(),
        run(m, ops).count() <= run(m, ops).len(),
    decreases ops.len(),
{
    if ops.len() > 0 {
        let before = run(m, ops.drop_last());
        lemma_count_after_calls(m, ops.drop_last());
        match ops.last() {
            Op::Add(value) => lemma_add_preserves(before, value),
            Op::Remove(h) => lemma_remove_preserves(before, h),
        }
    }
    lemma_live_len_bound(run(m, ops).slots, 0);
}

/// The storage never shrinks: at every point of a sequence of calls within
/// the operations' contracts it is at most as long as at the end.
pub proof fn lemma_len_monotone<T>(m: ArenaModel<T>, ops: Seq<Op<T>>, k: int)
    requires
        m.wf(),
        all_permitted(m, ops),
        0 <= k <= ops.len(),
    ensures
        run(m, ops.take(k)).len() <= run(m, ops).len(),
    decreases ops.len(),
{
    if k < ops.len() {
        let before = run(m, ops.drop_last());
        lemma_len_monotone(m, ops.drop_last(), k);
        assert(ops.drop_last().take(k) =~= ops.take(k));
        lemma_count_after_calls(m, ops.drop_last());
        match ops.last() {
            Op::Add(value) => lemma_add_preserves(before, value),
            Op::Remove(h) => lemma_remove_preserves(before, h),
        }
    } else {
        assert(ops.take(k) =~= ops);
    }
}

/// The live handles of an arena are exactly its valid handles, each once, in
/// ascending slot order, and there are `count()` of them.
pub proof fn lemma_live_exactly_valid<T>(m: ArenaModel<T>)
    requires
        m.wf(),
    ensures
        m.live().len() == m.count(),
        m.count() <= m.len(),
        forall|k: int| 0 <= k < m.live().len() ==> m.valid(#[trigger] m.live()[k]),
        forall|h: Handle| m.valid(h) ==> m.live().contains(h),
        forall|j: int, k: int|
            0 <= j < k < m.live().len() ==> (#[trigger] m.live()[j]).index < (
            #[trigger] m.live()[k]).index,
{
    lemma_live_len_bound(m.slots, 0);
    lemma_live_members(m.slots, 0);
    assert forall|h: Handle| m.valid(h) implies m.live().contains(h) by {
        lemma_live_complete(m.slots, 0, h.index as int);
    }
}

/// Every slot is either live or on the free stack, and never both: the live
/// values and the free stack together account for the whole storage.
pub proof fn lemma_slots_accounted<T>(m: ArenaModel<T>)
    requires
        m.wf(),
    ensures
        m.count() + m.free.len() == m.len(),
        forall|i: int|
            0 <= i < m.slots.len() ==> ((#[trigger] m.slots[i]) is Freed <==> m.listed(i)),
{
    assert forall|i: int| 0 <= i < m.slots.len() && m.listed(i) implies (#[trigger] m.slots[
        i
    ]) is Freed by {
        let k = choose|k: int| 0 <= k < m.free.len() && (#[trigger] m.free[k]).index == i;
        assert(m.slots[m.free[k].index as int] is Freed);
    }
}

/// The empty arena is well formed and holds nothing.
pub proof fn lemma_empty<T>()
    ensures
        ArenaModel::<T>::empty().wf(),
        ArenaModel::<T>::empty().count() == 0,
        ArenaModel::<T>::empty().len() == 0,
        ArenaModel::<T>::empty().can_add(),
        ArenaModel::<T>::empty().next_handle() == (Handle {
            index: 0,
            generation: FIRST_GENERATION,
        }),
{
}

} // verus!
