//! The tagged handle: one word that stands for no block, a left block or a
//! right block.
//!
//! Sharing is counted. A handle that is cloned takes one more reference to
//! its block, and a handle that is dropped gives one up; the block goes when
//! its last reference does. A counter that is full takes no further
//! reference: `try_clone` then reports that nothing was shared, and `clone`
//! must not be called.

use vstd::prelude::*;
use vstd::arithmetic::power2::{lemma2_to64, pow2};
use core::marker::PhantomData;
use crate::block::{BlockView, CoWecBlock};
use crate::heap::{is_address, is_lowest_free, released_at, shared_at, Heap, Resident};
use crate::packed::is_capacity;
use crate::refcnt::{RefCnt, MAX_REFS};

verus! {

/// The capacity of the block behind a new handle.
pub const INITIAL_CAPACITY: usize = 2;

/// A handle to at most one block on a heap.
///
/// The word it holds is zero for a stub, the block's address for a left
/// block, and the block's address plus one for a right block.
///
/// A handle holds one reference to its block from `new_left`, `new_right`
/// or `clone` until `drop`. The heap is handed to each of these calls; a
/// handle that merely goes out of scope keeps its reference, and its block
/// stays on the heap.
pub struct CoWec<R, T, U> where R: RefCnt {
    ptr: usize,
    _l: PhantomData<CoWecBlock<R, T>>,
    _r: PhantomData<CoWecBlock<R, U>>,
}

impl<R: RefCnt, T, U> View for CoWec<R, T, U> {
    type V = usize;

    closed spec fn view(&self) -> usize {
        self.ptr
    }
}

impl<R, T, U> CoWec<R, T, U> where R: RefCnt {
    /// Whether the handle's word is zero.
    pub open spec fn spec_is_stub(&self) -> bool {
        self@ == 0
    }

    /// Whether the handle's word is an address.
    pub open spec fn spec_is_left(&self) -> bool {
        self@ != 0 && self@ % 2 == 0
    }

    /// Whether the handle's word is an address plus one.
    pub open spec fn spec_is_right(&self) -> bool {
        self@ % 2 == 1
    }

    /// The handle's word without its tag: the address of the block, or zero
    /// for a stub.
    pub open spec fn spec_address(&self) -> usize {
        (self@ - self@ % 2) as usize
    }

    /// Whether the block that the handle refers to lives on `heap`, with the
    /// element type that the tag says. A stub is valid on every heap.
    pub open spec fn valid_on(&self, heap: &Heap<R, T, U>) -> bool {
        &&& self.is_left() ==> heap.has_left(self.address())
        &&& self.is_right() ==> heap.has_right(self.address())
    }

    /// Whether the block's counter can take one more reference.
    pub open spec fn can_share(&self, heap: &Heap<R, T, U>) -> bool {
        self.is_stub() || heap@[self.address()].refs() < MAX_REFS
    }

    /// A handle that refers to no block.
    pub fn new_stub() -> (stub: Self)
        ensures
            stub@ == 0,
            stub.is_stub(),
            !stub.is_left(),
            !stub.is_right(),
    {
        CoWec { ptr: 0, _l: PhantomData, _r: PhantomData }
    }

    /// Creates a left block with two vacant slots on `heap` and returns the
    /// handle that holds its one reference.
    pub fn new_left(heap: &mut Heap<R, T, U>) -> (handle: Self)
        requires
            old(heap).wf(),
            old(heap).room(),
        ensures
            final(heap).wf(),
            handle.is_left(),
            !handle.is_stub(),
            !handle.is_right(),
            handle.valid_on(final(heap)),
            is_lowest_free(old(heap)@, handle.address()),
            final(heap)@ == old(heap)@.insert(
                handle.address(),
                Resident::Left(BlockView::fresh(INITIAL_CAPACITY as nat)),
            ),
    {
        proof {
            lemma_initial_capacity();
        }
        let block: CoWecBlock<R, T> = CoWecBlock::create(INITIAL_CAPACITY);
        let addr: usize = heap.place_left(block);
        CoWec { ptr: addr, _l: PhantomData, _r: PhantomData }
    }

    /// Creates a right block with two vacant slots on `heap` and returns the
    /// handle that holds its one reference.
    pub fn new_right(heap: &mut Heap<R, T, U>) -> (handle: Self)
        requires
            old(heap).wf(),
            old(heap).room(),
        ensures
            final(heap).wf(),
            handle.is_right(),
            !handle.is_stub(),
            !handle.is_left(),
            handle.valid_on(final(heap)),
            is_lowest_free(old(heap)@, handle.address()),
            final(heap)@ == old(heap)@.insert(
                handle.address(),
                Resident::Right(BlockView::fresh(INITIAL_CAPACITY as nat)),
            ),
    {
        proof {
            lemma_initial_capacity();
        }
        let block: CoWecBlock<R, U> = CoWecBlock::create(INITIAL_CAPACITY);
        let addr: usize = heap.place_right(block);
        CoWec { ptr: addr + 1, _l: PhantomData, _r: PhantomData }
    }

    /// Whether the handle refers to no block.
    #[verifier::when_used_as_spec(spec_is_stub)]
    pub fn is_stub(&self) -> (stub: bool)
        ensures
            stub == self.spec_is_stub(),
    {
        self.ptr == 0
    }

    /// Whether the handle refers to a left block.
    #[verifier::when_used_as_spec(spec_is_left)]
    pub fn is_left(&self) -> (left: bool)
        ensures
            left == self.spec_is_left(),
    {
        self.ptr % 2 == 0 && !self.is_stub()
    }

    /// Whether the handle refers to a right block.
    #[verifier::when_used_as_spec(spec_is_right)]
    pub fn is_right(&self) -> (right: bool)
        ensures
            right == self.spec_is_right(),
    {
        !self.is_left() && !self.is_stub()
    }

    /// The address of the block that the handle refers to, or zero for a
    /// stub.
    #[verifier::when_used_as_spec(spec_address)]
    pub fn address(&self) -> (addr: usize)
        ensures
            addr == self.spec_address(),
    {
        if self.is_right() {
            self.ptr - 1
        } else {
            self.ptr
        }
    }

    /// Makes a second handle to the same block, if the block's counter can
    /// take one more reference. If it cannot, nothing is shared and nothing
    /// changes. A stub yields another stub.
    pub fn try_clone(&self, heap: &mut Heap<R, T, U>) -> (twin: Option<Self>)
        requires
            old(heap).wf(),
            self.valid_on(old(heap)),
        ensures
            final(heap).wf(),
            twin is Some <==> self.can_share(old(heap)),
            twin matches Some(handle) ==> handle@ == self@ && handle.valid_on(final(heap)),
            self.valid_on(final(heap)),
            final(heap)@ == if self.is_stub() || twin is None {
                old(heap)@
            } else {
                shared_at(old(heap)@, self.address())
            },
    {
        let taken: bool = if self.is_left() {
            heap.left_mut(self.ptr).inc_ref()
        } else if self.is_right() {
            heap.right_mut(self.ptr - 1).inc_ref()
        } else {
            true
        };
        if taken {
            Some(CoWec { ptr: self.ptr, _l: PhantomData, _r: PhantomData })
        } else {
            None
        }
    }

    /// Makes a second handle to the same block. Both handles hold the same
    /// word, and the block carries one reference more. A stub yields another
    /// stub.
    pub fn clone(&self, heap: &mut Heap<R, T, U>) -> (twin: Self)
        requires
            old(heap).wf(),
            self.valid_on(old(heap)),
            self.can_share(old(heap)),
        ensures
            final(heap).wf(),
            twin@ == self@,
            twin.is_stub() == self.is_stub(),
            twin.is_left() == self.is_left(),
            twin.is_right() == self.is_right(),
            twin.valid_on(final(heap)),
            self.valid_on(final(heap)),
            final(heap)@ == if self.is_stub() {
                old(heap)@
            } else {
                shared_at(old(heap)@, self.address())
            },
    {
        self.try_clone(heap).unwrap()
    }

    /// Gives the handle up. Its block loses one reference, and goes from the
    /// heap if that was the last one. Giving up a stub changes nothing.
    pub fn drop(self, heap: &mut Heap<R, T, U>)
        requires
            old(heap).wf(),
            self.valid_on(old(heap)),
        ensures
            final(heap).wf(),
            final(heap)@ == if self.is_stub() {
                old(heap)@
            } else {
                released_at(old(heap)@, self.address())
            },
    {
        if self.is_left() {
            heap.dec_ref_left(self.ptr);
        } else if self.is_right() {
            heap.dec_ref_right(self.ptr - 1);
        }
    }
}

/// A handle is in exactly one of its three states, and the address behind
/// a handle that is no stub is the handle's word without the tag.
pub proof fn lemma_one_state<R: RefCnt, T, U>(handle: CoWec<R, T, U>)
    ensures
        handle.is_stub() || handle.is_left() || handle.is_right(),
        !(handle.is_stub() && handle.is_left()),
        !(handle.is_stub() && handle.is_right()),
        !(handle.is_left() && handle.is_right()),
        handle.is_stub() ==> handle.address() == 0,
        handle.is_left() ==> handle.address() == handle@ && is_address(handle.address()),
        handle.is_right() ==> handle.address() + 1 == handle@,
{
}

/// Two slots are a capacity that a block can have.
proof fn lemma_initial_capacity()
    ensures
        is_capacity(INITIAL_CAPACITY as nat),
{
    lemma2_to64();
    assert(INITIAL_CAPACITY as nat == pow2(1));
}

} // verus!
