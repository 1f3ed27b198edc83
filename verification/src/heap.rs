//! The heap: where blocks live while handles refer to them.
//!
//! A block gets an address when it is placed on the heap and keeps it until
//! its last reference is given up. Addresses are even and never zero, so the
//! lowest bit of an address is free to carry a tag and zero is free to mean
//! that there is no block.

use vstd::prelude::*;
use crate::block::{BlockView, CoWecBlock};
use crate::refcnt::RefCnt;

verus! {

/// The number of blocks a heap has addresses for.
pub const MAX_CHUNKS: usize = usize::MAX / 2;

/// One addressable place on the heap.
enum Chunk<R, T, U> {
    /// No block lives here.
    Vacant,
    /// A block of the left element type lives here.
    Left(CoWecBlock<R, T>),
    /// A block of the right element type lives here.
    Right(CoWecBlock<R, U>),
}

/// What lives at an address, seen from outside.
#[verifier::ext_equal]
pub enum Resident<T, U> {
    Left(BlockView<T>),
    Right(BlockView<U>),
}

impl<T, U> Resident<T, U> {
    /// The number of references to the block.
    pub open spec fn refs(self) -> nat {
        match self {
            Resident::Left(block) => block.refs,
            Resident::Right(block) => block.refs,
        }
    }

    /// The block with one reference more.
    pub open spec fn shared(self) -> Self {
        match self {
            Resident::Left(block) => Resident::Left(block.shared()),
            Resident::Right(block) => Resident::Right(block.shared()),
        }
    }

    /// The block with one reference less.
    pub open spec fn released(self) -> Self {
        match self {
            Resident::Left(block) => Resident::Left(block.released()),
            Resident::Right(block) => Resident::Right(block.released()),
        }
    }
}

/// A heap seen from outside: the blocks by their addresses.
pub type HeapView<T, U> = Map<usize, Resident<T, U>>;

/// Whether a word can be the address of a block: even and not zero.
pub open spec fn is_address(addr: usize) -> bool {
    addr != 0 && addr % 2 == 0
}

/// Whether `addr` is the lowest address at which no block lives.
pub open spec fn is_lowest_free<T, U>(heap: HeapView<T, U>, addr: usize) -> bool {
    &&& is_address(addr)
    &&& !heap.dom().contains(addr)
    &&& forall|below: usize|
        is_address(below) && below < addr ==> #[trigger] heap.dom().contains(below)
}

/// The heap after the block at `addr` got one reference more.
pub open spec fn shared_at<T, U>(heap: HeapView<T, U>, addr: usize) -> HeapView<T, U> {
    heap.insert(addr, heap[addr].shared())
}

/// The heap after one reference to the block at `addr` was given up: the
/// block that held its last reference is gone, any other block has one
/// reference less.
pub open spec fn released_at<T, U>(heap: HeapView<T, U>, addr: usize) -> HeapView<T, U> {
    if heap[addr].refs() == 1 {
        heap.remove(addr)
    } else {
        heap.insert(addr, heap[addr].released())
    }
}

/// A heap of blocks of two element types.
pub struct Heap<R, T, U> {
    /// The chunk with index `i` has the address `2 * (i + 1)`.
    chunks: Vec<Chunk<R, T, U>>,
}

/// The index of the chunk with the given address.
spec fn index_of(addr: usize) -> int {
    addr / 2 - 1
}

impl<R: RefCnt, T, U> View for Heap<R, T, U> {
    type V = HeapView<T, U>;

    closed spec fn view(&self) -> HeapView<T, U> {
        Map::new(
            |addr: usize|
                is_address(addr) && index_of(addr) < self.chunks@.len() && !(
                self.chunks@[index_of(addr)] is Vacant),
            |addr: usize|
                match self.chunks@[index_of(addr)] {
                    Chunk::Left(block) => Resident::Left(block@),
                    Chunk::Right(block) => Resident::Right(block@),
                    Chunk::Vacant => arbitrary(),
                },
        )
    }
}

impl<R: RefCnt, T, U> Heap<R, T, U> {
    /// The heap's invariant: every chunk has an address, and every block on
    /// the heap is well formed and carries at least one reference.
    pub closed spec fn wf(&self) -> bool {
        &&& self.chunks@.len() <= MAX_CHUNKS
        &&& forall|i: int|
            0 <= i < self.chunks@.len() ==> match #[trigger] self.chunks@[i] {
                Chunk::Left(block) => block.wf() && block@.refs >= 1,
                Chunk::Right(block) => block.wf() && block@.refs >= 1,
                Chunk::Vacant => true,
            }
    }

    /// Whether a left block lives at `addr`.
    pub open spec fn has_left(&self, addr: usize) -> bool {
        self@.dom().contains(addr) && self@[addr] is Left
    }

    /// Whether a right block lives at `addr`.
    pub open spec fn has_right(&self, addr: usize) -> bool {
        self@.dom().contains(addr) && self@[addr] is Right
    }

    /// Whether the heap has an address left for one more block.
    pub open spec fn room(&self) -> bool {
        exists|addr: usize| is_address(addr) && !self@.dom().contains(addr)
    }

    /// Only addresses are in use, and every block on a well-formed heap
    /// keeps within the limits of its header word and carries a reference.
    pub proof fn lemma_residents(&self, addr: usize)
        requires
            self.wf(),
            self@.dom().contains(addr),
        ensures
            is_address(addr),
            self@[addr].refs() >= 1,
            self@[addr] matches Resident::Left(block) ==> block.wf(),
            self@[addr] matches Resident::Right(block) ==> block.wf(),
    {
        match self.chunks@[index_of(addr)] {
            Chunk::Left(block) => block.lemma_wf_view(),
            Chunk::Right(block) => block.lemma_wf_view(),
            Chunk::Vacant => {},
        }
    }

    /// An empty heap.
    pub fn new() -> (heap: Self)
        ensures
            heap.wf(),
            heap@ == HeapView::<T, U>::empty(),
    {
        Heap { chunks: Vec::new() }
    }

    /// The index of the first vacant chunk, or the number of chunks if none
    /// is vacant.
    fn first_vacancy(&self) -> (index: usize)
        ensures
            index <= self.chunks@.len(),
            index < self.chunks@.len() ==> self.chunks@[index as int] is Vacant,
            forall|i: int| 0 <= i < index ==> !((#[trigger] self.chunks@[i]) is Vacant),
    {
        let mut index: usize = 0;
        while index < self.chunks.len()
            invariant
                index <= self.chunks@.len(),
                forall|i: int| 0 <= i < index ==> !((#[trigger] self.chunks@[i]) is Vacant),
            decreases self.chunks@.len() - index,
        {
            if let Chunk::Vacant = &self.chunks[index] {
                return index;
            }
            index = index + 1;
        }
        index
    }

    /// Tells whether the heap has an address left for one more block.
    pub fn has_room(&self) -> (room: bool)
        requires
            self.wf(),
        ensures
            room == self.room(),
    {
        let index: usize = self.first_vacancy();
        let room: bool = index < MAX_CHUNKS;
        proof {
            let addr: usize = (2 * (index + 1)) as usize;
            if room {
                assert(is_address(addr) && !self@.dom().contains(addr));
            } else {
                assert forall|other: usize| is_address(other) implies self@.dom().contains(
                    other,
                ) by {
                    assert(!(self.chunks@[index_of(other)] is Vacant));
                }
            }
        }
        room
    }

    /// Puts a chunk on the heap, at the lowest address at which no block
    /// lives.
    fn place(&mut self, chunk: Chunk<R, T, U>) -> (addr: usize)
        requires
            old(self).wf(),
            old(self).room(),
            match chunk {
                Chunk::Left(block) => block.wf() && block@.refs >= 1,
                Chunk::Right(block) => block.wf() && block@.refs >= 1,
                Chunk::Vacant => false,
            },
        ensures
            final(self).wf(),
            is_lowest_free(old(self)@, addr),
            index_of(addr) < final(self).chunks@.len(),
            final(self).chunks@[index_of(addr)] == chunk,
            forall|other: usize|
                other != addr ==> (final(self)@.dom().contains(other) == old(self)@.dom().contains(
                    other,
                )),
            forall|other: usize|
                other != addr && old(self)@.dom().contains(other) ==> final(self)@[other] == old(
                    self,
                )@[other],
    {
        let index: usize = self.first_vacancy();
        proof {
            if index >= MAX_CHUNKS {
                let free: usize = choose|free: usize|
                    is_address(free) && !self@.dom().contains(free);
                assert(!(self.chunks@[index_of(free)] is Vacant));
            }
        }
        if index < self.chunks.len() {
            self.chunks[index] = chunk;
        } else {
            self.chunks.push(chunk);
        }
        let addr: usize = 2 * (index + 1);
        proof {
            assert forall|below: usize| is_address(below) && below < addr implies old(
                self,
            )@.dom().contains(below) by {
                assert(!(old(self).chunks@[index_of(below)] is Vacant));
            }
        }
        addr
    }

    /// Puts a left block on the heap and returns its address: the lowest at
    /// which no block lived.
    pub fn place_left(&mut self, block: CoWecBlock<R, T>) -> (addr: usize)
        requires
            old(self).wf(),
            old(self).room(),
            block.wf(),
            block@.refs >= 1,
        ensures
            final(self).wf(),
            is_lowest_free(old(self)@, addr),
            final(self)@ == old(self)@.insert(addr, Resident::Left(block@)),
    {
        self.place(Chunk::Left(block))
    }

    /// Puts a right block on the heap and returns its address: the lowest at
    /// which no block lived.
    pub fn place_right(&mut self, block: CoWecBlock<R, U>) -> (addr: usize)
        requires
            old(self).wf(),
            old(self).room(),
            block.wf(),
            block@.refs >= 1,
        ensures
            final(self).wf(),
            is_lowest_free(old(self)@, addr),
            final(self)@ == old(self)@.insert(addr, Resident::Right(block@)),
    {
        self.place(Chunk::Right(block))
    }

    /// The left block at `addr`.
    pub fn left(&self, addr: usize) -> (block: &CoWecBlock<R, T>)
        requires
            self.wf(),
            self.has_left(addr),
        ensures
            block.wf(),
            Resident::<T, U>::Left(block@) == self@[addr],
    {
        match &self.chunks[addr / 2 - 1] {
            Chunk::Left(block) => block,
            _ => vstd::pervasive::unreached(),
        }
    }

    /// The right block at `addr`.
    pub fn right(&self, addr: usize) -> (block: &CoWecBlock<R, U>)
        requires
            self.wf(),
            self.has_right(addr),
        ensures
            block.wf(),
            Resident::<T, U>::Right(block@) == self@[addr],
    {
        match &self.chunks[addr / 2 - 1] {
            Chunk::Right(block) => block,
            _ => vstd::pervasive::unreached(),
        }
    }

    /// The left block at `addr`, for writing. The heap stays well formed if
    /// the block is left well formed and with a reference.
    pub fn left_mut(&mut self, addr: usize) -> (block: &mut CoWecBlock<R, T>)
        requires
            old(self).wf(),
            old(self).has_left(addr),
        ensures
            block.wf(),
            Resident::<T, U>::Left(block@) == old(self)@[addr],
            final(self)@ == old(self)@.insert(addr, Resident::Left(final(block)@)),
            final(block).wf() && final(block)@.refs >= 1 ==> final(self).wf(),
    {
        match &mut self.chunks[addr / 2 - 1] {
            Chunk::Left(block) => block,
            _ => vstd::pervasive::unreached(),
        }
    }

    /// The right block at `addr`, for writing. The heap stays well formed if
    /// the block is left well formed and with a reference.
    pub fn right_mut(&mut self, addr: usize) -> (block: &mut CoWecBlock<R, U>)
        requires
            old(self).wf(),
            old(self).has_right(addr),
        ensures
            block.wf(),
            Resident::<T, U>::Right(block@) == old(self)@[addr],
            final(self)@ == old(self)@.insert(addr, Resident::Right(final(block)@)),
            final(block).wf() && final(block)@.refs >= 1 ==> final(self).wf(),
    {
        match &mut self.chunks[addr / 2 - 1] {
            Chunk::Right(block) => block,
            _ => vstd::pervasive::unreached(),
        }
    }

    /// Gives up one reference to the left block at `addr`. If it was the
    /// last one, the block is disposed of and its address is free again.
    pub fn dec_ref_left(&mut self, addr: usize)
        requires
            old(self).wf(),
            old(self).has_left(addr),
        ensures
            final(self).wf(),
            final(self)@ == released_at(old(self)@, addr),
    {
        let index: usize = addr / 2 - 1;
        let mut chunk: Chunk<R, T, U> = Chunk::Vacant;
        core::mem::swap(&mut chunk, &mut self.chunks[index]);
        if let Chunk::Left(block) = chunk {
            if let Some(kept) = CoWecBlock::dec_ref(block) {
                self.chunks[index] = Chunk::Left(kept);
            }
        }
    }

    /// Gives up one reference to the right block at `addr`. If it was the
    /// last one, the block is disposed of and its address is free again.
    pub fn dec_ref_right(&mut self, addr: usize)
        requires
            old(self).wf(),
            old(self).has_right(addr),
        ensures
            final(self).wf(),
            final(self)@ == released_at(old(self)@, addr),
    {
        let index: usize = addr / 2 - 1;
        let mut chunk: Chunk<R, T, U> = Chunk::Vacant;
        core::mem::swap(&mut chunk, &mut self.chunks[index]);
        if let Chunk::Right(block) = chunk {
            if let Some(kept) = CoWecBlock::dec_ref(block) {
                self.chunks[index] = Chunk::Right(kept);
            }
        }
    }
}

} // verus!
