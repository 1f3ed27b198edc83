//! What holds of blocks and heaps whatever the calls: laws over the views
//! that the contracts of `block`, `heap` and `handle` are stated in.

use vstd::prelude::*;
use crate::block::BlockView;
use crate::heap::{released_at, shared_at, HeapView, Resident};
use crate::packed::{is_capacity, MAX_LEN};

verus! {

/// A run of insertions: each the slot and the value that goes into it.
pub type Insertions<T> = Seq<(int, T)>;

/// The block after a run of insertions, made one after the other.
pub open spec fn insert_all<T>(block: BlockView<T>, run: Insertions<T>) -> BlockView<T>
    decreases run.len(),
{
    if run.len() == 0 {
        block
    } else {
        insert_all(block, run.drop_last()).inserted(run.last().0, run.last().1)
    }
}

/// Whether every insertion of a run meets what `insert` requires when its
/// turn comes: a slot not behind the end, and a block that is not full.
pub open spec fn insertable<T>(block: BlockView<T>, run: Insertions<T>) -> bool {
    &&& block.len() + run.len() <= block.capacity
    &&& block.len() + run.len() <= MAX_LEN
    &&& forall|i: int| 0 <= i < run.len() ==> 0 <= (#[trigger] run[i]).0 <= block.len() + i
}

/// The values of a run, in the order in which they are inserted.
pub open spec fn values<T>(run: Insertions<T>) -> Seq<T> {
    Seq::new(run.len(), |i: int| run[i].1)
}

/// A block that was just created has no element, the capacity it was asked
/// for and one reference, and it keeps within the limits of its header
/// word.
pub proof fn fresh_is_empty<T>(capacity: nat)
    requires
        is_capacity(capacity),
    ensures
        BlockView::<T>::fresh(capacity).len() == 0,
        BlockView::<T>::fresh(capacity).capacity == capacity,
        BlockView::<T>::fresh(capacity).refs == 1,
        BlockView::<T>::fresh(capacity).wf(),
{
}

/// Resizing changes the capacity and nothing else: the elements, their
/// order and the references stay.
pub proof fn resize_keeps_elements<T>(block: BlockView<T>, capacity: nat)
    requires
        block.wf(),
        is_capacity(capacity),
        block.len() <= capacity,
    ensures
        block.resized(capacity).elems == block.elems,
        block.resized(capacity).len() == block.len(),
        block.resized(capacity).refs == block.refs,
        block.resized(capacity).capacity == capacity,
        block.resized(capacity).wf(),
{
}

/// A block that was just created and then resized is as if it had been
/// created with the new capacity: it has no element and exactly that many
/// slots.
pub proof fn resize_of_fresh<T>(first: nat, second: nat)
    requires
        is_capacity(first),
        is_capacity(second),
    ensures
        BlockView::<T>::fresh(first).resized(second) == BlockView::<T>::fresh(second),
        BlockView::<T>::fresh(first).resized(second).len() == 0,
        BlockView::<T>::fresh(first).resized(second).capacity == second,
{
}

/// An insertion makes the block one longer. The elements in front of the
/// slot stay where they are, the value stands in the slot, and the elements
/// from the slot on stand one slot further right, in their old order.
pub proof fn insert_shifts_right<T>(block: BlockView<T>, pos: int, val: T)
    requires
        0 <= pos <= block.len(),
    ensures
        block.inserted(pos, val).len() == block.len() + 1,
        block.inserted(pos, val).capacity == block.capacity,
        block.inserted(pos, val).refs == block.refs,
        block.inserted(pos, val).elems[pos] == val,
        forall|i: int| 0 <= i < pos ==> block.inserted(pos, val).elems[i] == block.elems[i],
        forall|i: int|
            pos < i <= block.len() ==> block.inserted(pos, val).elems[i] == block.elems[i - 1],
{
}

/// A removal makes the block one shorter. The elements in front of the slot
/// stay where they are, and the elements behind it stand one slot further
/// left, in their old order.
pub proof fn remove_shifts_left<T>(block: BlockView<T>, pos: int)
    requires
        0 <= pos < block.len(),
    ensures
        block.removed(pos).len() == block.len() - 1,
        block.removed(pos).capacity == block.capacity,
        block.removed(pos).refs == block.refs,
        forall|i: int| 0 <= i < pos ==> block.removed(pos).elems[i] == block.elems[i],
        forall|i: int|
            pos <= i < block.len() - 1 ==> block.removed(pos).elems[i] == block.elems[i + 1],
{
}

/// Removing what was just inserted gives the block back as it was.
pub proof fn insert_then_remove<T>(block: BlockView<T>, pos: int, val: T)
    requires
        0 <= pos <= block.len(),
    ensures
        block.inserted(pos, val).removed(pos) == block,
{
    assert(block.inserted(pos, val).removed(pos).elems =~= block.elems);
}

/// Writing through `get_mut` changes the element in that slot and nothing
/// else: neither the other elements nor the length nor the capacity.
pub proof fn replace_changes_one<T>(block: BlockView<T>, pos: int, val: T)
    requires
        0 <= pos < block.len(),
    ensures
        block.replaced(pos, val).elems[pos] == val,
        block.replaced(pos, val).len() == block.len(),
        block.replaced(pos, val).capacity == block.capacity,
        block.replaced(pos, val).refs == block.refs,
        forall|i: int|
            0 <= i < block.len() && i != pos ==> block.replaced(pos, val).elems[i]
                == block.elems[i],
{
}

/// After a run of insertions the block is longer by the number of
/// insertions, and has the capacity and the references it had.
pub proof fn inserts_add_up<T>(block: BlockView<T>, run: Insertions<T>)
    requires
        block.wf(),
        insertable(block, run),
    ensures
        insert_all(block, run).len() == block.len() + run.len(),
        insert_all(block, run).capacity == block.capacity,
        insert_all(block, run).refs == block.refs,
        insert_all(block, run).wf(),
    decreases run.len(),
{
    if run.len() > 0 {
        inserts_add_up(block, run.drop_last());
    }
}

/// Insertions that each go behind the last element leave the values in the
/// order in which they were inserted.
pub proof fn inserts_at_end_keep_order<T>(capacity: nat, run: Insertions<T>)
    requires
        forall|i: int| 0 <= i < run.len() ==> (#[trigger] run[i]).0 == i,
    ensures
        insert_all(BlockView::<T>::fresh(capacity), run).elems == values(run),
    decreases run.len(),
{
    if run.len() > 0 {
        inserts_at_end_keep_order(capacity, run.drop_last());
        assert(insert_all(BlockView::<T>::fresh(capacity), run).elems =~= values(run));
    } else {
        assert(insert_all(BlockView::<T>::fresh(capacity), run).elems =~= values(run));
    }
}

/// Insertions that each go in front of the first element leave the values
/// in the reverse of the order in which they were inserted.
pub proof fn inserts_at_front_reverse_order<T>(capacity: nat, run: Insertions<T>)
    requires
        forall|i: int| 0 <= i < run.len() ==> (#[trigger] run[i]).0 == 0,
    ensures
        insert_all(BlockView::<T>::fresh(capacity), run).elems == values(run).reverse(),
    decreases run.len(),
{
    if run.len() > 0 {
        inserts_at_front_reverse_order(capacity, run.drop_last());
        assert(insert_all(BlockView::<T>::fresh(capacity), run).elems =~= values(
            run,
        ).reverse());
    } else {
        assert(insert_all(BlockView::<T>::fresh(capacity), run).elems =~= values(
            run,
        ).reverse());
    }
}

/// The heap after `times` references to the block at `addr` were given up,
/// one after the other.
pub open spec fn released_times<T, U>(heap: HeapView<T, U>, addr: usize, times: nat) -> HeapView<
    T,
    U,
>
    decreases times,
{
    if times == 0 {
        heap
    } else {
        released_at(released_times(heap, addr, (times - 1) as nat), addr)
    }
}

/// Sharing a block and then giving one reference up leaves the heap as it
/// was: the block is still there, with the elements and the references it
/// had, for the handle that remains.
pub proof fn share_then_release<T, U>(heap: HeapView<T, U>, addr: usize)
    requires
        heap.dom().contains(addr),
        heap[addr].refs() >= 1,
    ensures
        shared_at(heap, addr).dom().contains(addr),
        shared_at(heap, addr)[addr].refs() == heap[addr].refs() + 1,
        released_at(shared_at(heap, addr), addr) == heap,
{
    let back = released_at(shared_at(heap, addr), addr);
    assert(back[addr] == heap[addr]);
    assert(back =~= heap);
}

/// Sharing and releasing one block touches no other block.
pub proof fn other_blocks_untouched<T, U>(heap: HeapView<T, U>, addr: usize, other: usize)
    requires
        other != addr,
    ensures
        shared_at(heap, addr).dom().contains(other) == heap.dom().contains(other),
        released_at(heap, addr).dom().contains(other) == heap.dom().contains(other),
        heap.dom().contains(other) ==> shared_at(heap, addr)[other] == heap[other],
        heap.dom().contains(other) ==> released_at(heap, addr)[other] == heap[other],
{
}

/// A block stays on the heap, unchanged but for its counter, as long as a
/// reference to it is left, and goes exactly when the last one is given
/// up.
pub proof fn block_goes_with_last_reference<T, U>(heap: HeapView<T, U>, addr: usize, times: nat)
    requires
        heap.dom().contains(addr),
        heap[addr].refs() >= 1,
        times <= heap[addr].refs(),
    ensures
        released_times(heap, addr, times).dom().contains(addr) <==> times < heap[addr].refs(),
        times < heap[addr].refs() ==> released_times(heap, addr, times)[addr].refs()
            == heap[addr].refs() - times,
        times < heap[addr].refs() ==> match (released_times(heap, addr, times)[addr], heap[addr]) {
            (Resident::Left(after), Resident::Left(before)) => after.elems == before.elems
                && after.capacity == before.capacity,
            (Resident::Right(after), Resident::Right(before)) => after.elems == before.elems
                && after.capacity == before.capacity,
            _ => false,
        },
    decreases times,
{
    if times > 0 {
        block_goes_with_last_reference(heap, addr, (times - 1) as nat);
    }
}

} // verus!
