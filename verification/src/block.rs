//! The block: a reference counter, a packed length/capacity word, and the
//! payload slots, owned together as one allocation.

use vstd::prelude::*;
use crate::packed::{
    class_of, is_capacity, pack_word, unpack_capacity, unpack_class, unpack_len, word_capacity,
    word_class, word_len, MAX_CLASS, MAX_LEN,
};
use crate::refcnt::{RefCnt, MAX_REFS};

verus! {

/// What a block is, seen from outside: how many references it carries, how
/// many slots it has, and the live elements in slot order.
#[verifier::ext_equal]
pub struct BlockView<T> {
    pub refs: nat,
    pub capacity: nat,
    pub elems: Seq<T>,
}

impl<T> BlockView<T> {
    /// The number of live elements.
    pub open spec fn len(self) -> nat {
        self.elems.len()
    }

    /// A block as `create` leaves it: one reference, no element.
    pub open spec fn fresh(capacity: nat) -> Self {
        BlockView { refs: 1, capacity, elems: Seq::empty() }
    }

    /// The block with another number of slots and everything else kept.
    pub open spec fn resized(self, capacity: nat) -> Self {
        BlockView { capacity, ..self }
    }

    /// The block after `val` went into slot `pos`: the elements from `pos`
    /// on have moved one slot to the right.
    pub open spec fn inserted(self, pos: int, val: T) -> Self {
        BlockView { elems: self.elems.insert(pos, val), ..self }
    }

    /// The block after the element in slot `pos` left: the elements behind
    /// it have moved one slot to the left.
    pub open spec fn removed(self, pos: int) -> Self {
        BlockView { elems: self.elems.remove(pos), ..self }
    }

    /// The block with the element in slot `pos` exchanged for `val`.
    pub open spec fn replaced(self, pos: int, val: T) -> Self {
        BlockView { elems: self.elems.update(pos, val), ..self }
    }

    /// The block with one reference more.
    pub open spec fn shared(self) -> Self {
        BlockView { refs: self.refs + 1, ..self }
    }

    /// The block with one reference less.
    pub open spec fn released(self) -> Self {
        BlockView { refs: (self.refs - 1) as nat, ..self }
    }

    /// The limits that the header word puts on a block.
    pub open spec fn wf(self) -> bool {
        &&& is_capacity(self.capacity)
        &&& self.elems.len() <= self.capacity
        &&& self.elems.len() <= MAX_LEN
    }
}

/// A block of up to `capacity` elements of type `T`, counted by an `R`.
///
/// The slots are allocated when the block is created or resized, never by
/// `insert`. The first `len` slots hold the live elements in order; the
/// rest are vacant.
pub struct CoWecBlock<R, T> {
    /// The reference counter, of whichever implementation was chosen.
    rcell: R,
    /// The length and the capacity class, packed as `crate::packed` says.
    len: u16,
    /// The payload slots. A vacant slot is `None`.
    data: Vec<Option<T>>,
}

impl<R: RefCnt, T> View for CoWecBlock<R, T> {
    type V = BlockView<T>;

    closed spec fn view(&self) -> BlockView<T> {
        BlockView {
            refs: self.rcell.count(),
            capacity: word_capacity(self.len),
            elems: Seq::new(word_len(self.len), |i: int| self.data@[i].unwrap()),
        }
    }
}

impl<R: RefCnt, T> CoWecBlock<R, T> {
    /// The block's invariant: the header word has a power-of-two class, there
    /// are exactly `capacity` slots, and exactly the first `len` are live.
    pub closed spec fn wf(&self) -> bool {
        &&& 1 <= word_class(self.len) <= MAX_CLASS
        &&& self.data@.len() == word_capacity(self.len)
        &&& word_len(self.len) <= self.data@.len()
        &&& forall|i: int|
            0 <= i < self.data@.len() ==> ((#[trigger] self.data@[i]) is Some <==> i < word_len(
                self.len,
            ))
    }

    /// A well-formed block keeps within the limits of its header word.
    pub proof fn lemma_wf_view(&self)
        requires
            self.wf(),
        ensures
            self@.wf(),
    {
    }

    /// The number of live elements.
    pub fn len(&self) -> (n: usize)
        ensures
            n == self@.len(),
            n <= MAX_LEN,
    {
        unpack_len(self.len)
    }

    /// The number of slots.
    pub fn capacity(&self) -> (n: usize)
        ensures
            n == self@.capacity,
    {
        unpack_capacity(self.len)
    }

    /// Allocates a block of `capacity` vacant slots with one reference.
    pub fn create(capacity: usize) -> (me: Self)
        requires
            is_capacity(capacity as nat),
        ensures
            me.wf(),
            me@ == BlockView::<T>::fresh(capacity as nat),
            me@.len() == 0,
            me@.capacity == capacity,
            me@.refs == 1,
    {
        let class: u16 = class_of(capacity);
        let mut data: Vec<Option<T>> = Vec::with_capacity(capacity);
        let mut filled: usize = 0;
        while filled < capacity
            invariant
                filled <= capacity,
                data@.len() == filled,
                forall|i: int| 0 <= i < data@.len() ==> (#[trigger] data@[i]) is None,
            decreases capacity - filled,
        {
            data.push(None);
            filled = filled + 1;
        }
        let rcell = R::default();
        proof {
            R::default_holds_one(rcell);
        }
        CoWecBlock { rcell, len: pack_word(class, 0), data }
    }

    /// Reallocates the block to `new_cap` slots. The elements, their order
    /// and the reference count are kept; the block that comes back replaces
    /// the one that went in.
    pub fn resize(me: Self, new_cap: usize) -> (moved: Self)
        requires
            me.wf(),
            is_capacity(new_cap as nat),
            me@.len() <= new_cap,
        ensures
            moved.wf(),
            moved@ == me@.resized(new_cap as nat),
            moved@.elems == me@.elems,
            moved@.capacity == new_cap,
            moved@.refs == me@.refs,
    {
        let mut moved = me;
        let class: u16 = class_of(new_cap);
        let old_len: usize = moved.len();
        if new_cap < moved.data.len() {
            moved.data.truncate(new_cap);
        }
        while moved.data.len() < new_cap
            invariant
                moved.rcell == me.rcell,
                moved.len == me.len,
                old_len == word_len(me.len),
                old_len <= moved.data@.len(),
                me.data@.len() <= new_cap ==> me.data@.len() <= moved.data@.len() <= new_cap,
                me.data@.len() > new_cap ==> moved.data@.len() == new_cap,
                forall|i: int|
                    0 <= i < moved.data@.len() && i < me.data@.len() ==> (
                    #[trigger] moved.data@[i]) == me.data@[i],
                forall|i: int|
                    me.data@.len() <= i < moved.data@.len() ==> (#[trigger] moved.data@[i]) is None,
            decreases new_cap - moved.data@.len(),
        {
            moved.data.push(None);
        }
        moved.len = pack_word(class, old_len as u16);
        moved
    }

    /// Puts `val` into slot `pos`, after moving the elements from `pos` on
    /// one slot to the right. The block must have a vacant slot, and its
    /// header word must have room for the new length.
    pub fn insert(&mut self, pos: usize, val: T)
        requires
            old(self).wf(),
            old(self)@.len() < old(self)@.capacity,
            old(self)@.len() < MAX_LEN,
            pos <= old(self)@.len(),
        ensures
            final(self).wf(),
            final(self)@ == old(self)@.inserted(pos as int, val),
            final(self)@.len() == old(self)@.len() + 1,
    {
        let len: usize = self.len();
        let mut hole: usize = len;
        while hole > pos
            invariant
                pos <= hole <= len,
                len == word_len(old(self).len),
                len < self.data@.len(),
                self.rcell == old(self).rcell,
                self.len == old(self).len,
                self.data@.len() == old(self).data@.len(),
                old(self).wf(),
                self.data@[hole as int] is None,
                forall|i: int| 0 <= i < hole ==> (#[trigger] self.data@[i]) == old(self).data@[i],
                forall|i: int|
                    hole < i <= len ==> (#[trigger] self.data@[i]) == old(self).data@[i - 1],
                forall|i: int|
                    len < i < self.data@.len() ==> (#[trigger] self.data@[i]) == old(self).data@[i],
            decreases hole,
        {
            let elem: Option<T> = self.data[hole - 1].take();
            self.data[hole] = elem;
            hole = hole - 1;
        }
        self.data[pos] = Some(val);
        let class: u16 = unpack_class(self.len);
        self.len = pack_word(class, (len + 1) as u16);
    }

    /// Takes the element out of slot `pos` and moves the elements behind it
    /// one slot to the left.
    pub fn remove(&mut self, pos: usize) -> (elem: T)
        requires
            old(self).wf(),
            pos < old(self)@.len(),
        ensures
            final(self).wf(),
            elem == old(self)@.elems[pos as int],
            final(self)@ == old(self)@.removed(pos as int),
            final(self)@.len() == old(self)@.len() - 1,
    {
        let len: usize = self.len();
        let taken: Option<T> = self.data[pos].take();
        let mut hole: usize = pos;
        while hole + 1 < len
            invariant
                pos <= hole < len,
                len == word_len(old(self).len),
                len <= self.data@.len(),
                self.rcell == old(self).rcell,
                self.len == old(self).len,
                self.data@.len() == old(self).data@.len(),
                old(self).wf(),
                self.data@[hole as int] is None,
                forall|i: int| 0 <= i < pos ==> (#[trigger] self.data@[i]) == old(self).data@[i],
                forall|i: int|
                    pos <= i < hole ==> (#[trigger] self.data@[i]) == old(self).data@[i + 1],
                forall|i: int|
                    hole < i < self.data@.len() ==> (#[trigger] self.data@[i]) == old(
                        self,
                    ).data@[i],
            decreases len - hole,
        {
            let elem: Option<T> = self.data[hole + 1].take();
            self.data[hole] = elem;
            hole = hole + 1;
        }
        let class: u16 = unpack_class(self.len);
        self.len = pack_word(class, (len - 1) as u16);
        taken.unwrap()
    }

    /// The element in slot `pos`.
    pub fn get(&self, pos: usize) -> (elem: &T)
        requires
            self.wf(),
            pos < self@.len(),
        ensures
            *elem == self@.elems[pos as int],
    {
        self.data[pos].as_ref().unwrap()
    }

    /// The element in slot `pos`, for writing. What the caller leaves there
    /// is the element in slot `pos` afterwards; nothing else changes.
    pub fn get_mut(&mut self, pos: usize) -> (elem: &mut T)
        requires
            old(self).wf(),
            pos < old(self)@.len(),
        ensures
            *elem == old(self)@.elems[pos as int],
            final(self).wf(),
            final(self)@ == old(self)@.replaced(pos as int, *final(elem)),
    {
        self.data[pos].as_mut().unwrap()
    }

    /// Tears the block down: every live element is taken out of its slot and
    /// destroyed, then the counter and the slots go. The vacant slots behind
    /// the last live element are never read.
    pub fn dispose(me: Self)
        requires
            me.wf(),
    {
        let mut me = me;
        let len: usize = me.len();
        let mut next: usize = 0;
        while next < len
            invariant
                next <= len <= me.data@.len(),
                forall|i: int| 0 <= i < next ==> (#[trigger] me.data@[i]) is None,
                forall|i: int| next <= i < len ==> (#[trigger] me.data@[i]) is Some,
                forall|i: int| len <= i < me.data@.len() ==> (#[trigger] me.data@[i]) is None,
            decreases len - next,
        {
            let _elem: T = me.data[next].take().unwrap();
            next = next + 1;
        }
        // Every slot is vacant now: when the slots go, no element is left in
        // them to be destroyed a second time.
        assert(forall|i: int| 0 <= i < me.data@.len() ==> (#[trigger] me.data@[i]) is None);
    }

    /// Gives up one reference. The block that held its last reference is
    /// disposed of and `None` comes back; any other block comes back with
    /// one reference less.
    pub fn dec_ref(me: Self) -> (rest: Option<Self>)
        requires
            me.wf(),
            me@.refs >= 1,
        ensures
            rest is None <==> me@.refs == 1,
            rest matches Some(kept) ==> kept.wf() && kept@ == me@.released(),
    {
        let mut me = me;
        if me.rcell.dec_ref() {
            Self::dispose(me);
            None
        } else {
            Some(me)
        }
    }

    /// Tries to take one more reference. A block that already carries the
    /// maximum is left as it is and false is returned: the caller then has
    /// to work on a copy of its own instead of sharing this block.
    pub fn inc_ref(&mut self) -> (taken: bool)
        ensures
            taken == (old(self)@.refs < MAX_REFS),
            taken ==> final(self)@ == old(self)@.shared(),
            !taken ==> *final(self) == *old(self),
            final(self).wf() == old(self).wf(),
    {
        self.rcell.inc_ref()
    }
}

} // verus!
