use cowec::handle::INITIAL_CAPACITY;
use cowec::{CoWec, CoWecBlock, Heap, RCell};
use std::cell::Cell;
use std::rc::Rc;

type CW = CoWec<RCell, String, usize>;
type H = Heap<RCell, String, usize>;

/// An element that counts how often one of its kind was destroyed.
struct Counted {
    id: usize,
    drops: Rc<Cell<usize>>,
}

impl Drop for Counted {
    fn drop(&mut self) {
        self.drops.set(self.drops.get() + 1);
    }
}

fn counted(id: usize, drops: &Rc<Cell<usize>>) -> Counted {
    Counted { id, drops: Rc::clone(drops) }
}

/// Check construction & destruction of the empty thing
#[test]
fn create_empty() {
    let c = CW::new_stub();
    assert!(c.is_stub());
    assert!(!c.is_left());
    assert!(!c.is_right());
}

#[test]
fn create_left() {
    let mut heap = H::new();
    let c = CW::new_left(&mut heap);
    assert!(!c.is_stub());
    assert!(c.is_left());
    assert!(!c.is_right());
    c.drop(&mut heap);
}

#[test]
fn create_right() {
    let mut heap = H::new();
    let c = CW::new_right(&mut heap);
    assert!(!c.is_stub());
    assert!(!c.is_left());
    assert!(c.is_right());
    c.drop(&mut heap);
}

#[test]
fn clone_stub() {
    let mut heap = H::new();
    let c = CW::new_stub();
    let _d = c.clone(&mut heap);
}

#[test]
fn clone_left_empty() {
    let mut heap = H::new();
    let c = CW::new_left(&mut heap);
    let _d = c.clone(&mut heap);
}

#[test]
fn a_stub_has_address_zero_and_stays_a_stub() {
    let mut heap = H::new();
    let c = CW::new_stub();
    assert_eq!(c.address(), 0);
    let d = c.clone(&mut heap);
    assert!(d.is_stub());
    assert!(!d.is_left());
    assert!(!d.is_right());
    let e = c.try_clone(&mut heap).expect("a stub can always be cloned");
    assert!(e.is_stub());
    c.drop(&mut heap);
    d.drop(&mut heap);
    e.drop(&mut heap);
    assert!(heap.has_room());
}

#[test]
fn dropping_a_stub_leaves_the_heap_alone() {
    let drops = Rc::new(Cell::new(0));
    let mut heap = Heap::<RCell, Counted, u8>::new();
    let left = CoWec::<RCell, Counted, u8>::new_left(&mut heap);
    heap.left_mut(left.address()).insert(0, counted(1, &drops));
    let stub = CoWec::<RCell, Counted, u8>::new_stub();
    stub.drop(&mut heap);
    assert_eq!(drops.get(), 0);
    assert_eq!(heap.left(left.address()).len(), 1);
    left.drop(&mut heap);
    assert_eq!(drops.get(), 1);
}

#[test]
fn a_new_block_has_two_vacant_slots() {
    assert_eq!(INITIAL_CAPACITY, 2);
    let mut heap = H::new();
    let l = CW::new_left(&mut heap);
    let r = CW::new_right(&mut heap);
    assert_eq!(heap.left(l.address()).len(), 0);
    assert_eq!(heap.left(l.address()).capacity(), 2);
    assert_eq!(heap.right(r.address()).len(), 0);
    assert_eq!(heap.right(r.address()).capacity(), 2);
}

#[test]
fn addresses_are_even_and_the_tag_is_the_lowest_bit() {
    let mut heap = H::new();
    let l = CW::new_left(&mut heap);
    let r = CW::new_right(&mut heap);
    let l2 = CW::new_left(&mut heap);
    assert_eq!(l.address(), 2);
    assert_eq!(r.address(), 4);
    assert_eq!(l2.address(), 6);
    for addr in [l.address(), r.address(), l2.address()] {
        assert_ne!(addr, 0);
        assert_eq!(addr % 2, 0);
    }
}

#[test]
fn a_freed_address_is_used_again() {
    let mut heap = H::new();
    let a = CW::new_left(&mut heap);
    let b = CW::new_right(&mut heap);
    let c = CW::new_left(&mut heap);
    assert_eq!((a.address(), b.address(), c.address()), (2, 4, 6));
    b.drop(&mut heap);
    let d = CW::new_left(&mut heap);
    assert_eq!(d.address(), 4);
    assert!(d.is_left());
    a.drop(&mut heap);
    c.drop(&mut heap);
    let e = CW::new_right(&mut heap);
    assert_eq!(e.address(), 2);
    assert!(e.is_right());
    let f = CW::new_right(&mut heap);
    assert_eq!(f.address(), 6);
}

#[test]
fn clones_classify_alike() {
    let mut heap = H::new();
    let l = CW::new_left(&mut heap);
    let r = CW::new_right(&mut heap);
    let l2 = l.clone(&mut heap);
    let r2 = r.clone(&mut heap);
    assert!(l2.is_left() && !l2.is_right() && !l2.is_stub());
    assert!(r2.is_right() && !r2.is_left() && !r2.is_stub());
    assert_eq!(l2.address(), l.address());
    assert_eq!(r2.address(), r.address());
}

#[test]
fn the_block_goes_with_the_last_left_handle() {
    let drops = Rc::new(Cell::new(0));
    let mut heap = Heap::<RCell, Counted, u8>::new();
    let first = CoWec::<RCell, Counted, u8>::new_left(&mut heap);
    heap.left_mut(first.address()).insert(0, counted(10, &drops));
    heap.left_mut(first.address()).insert(1, counted(11, &drops));
    let second = first.clone(&mut heap);
    let third = second.clone(&mut heap);
    first.drop(&mut heap);
    assert_eq!(drops.get(), 0);
    assert!(second.is_left());
    assert_eq!(heap.left(second.address()).len(), 2);
    assert_eq!(heap.left(second.address()).get(0).id, 10);
    assert_eq!(heap.left(second.address()).get(1).id, 11);
    third.drop(&mut heap);
    assert_eq!(drops.get(), 0);
    assert_eq!(heap.left(second.address()).get(1).id, 11);
    second.drop(&mut heap);
    assert_eq!(drops.get(), 2);
}

#[test]
fn the_block_goes_with_the_last_right_handle() {
    let drops = Rc::new(Cell::new(0));
    let mut heap = Heap::<RCell, u8, Counted>::new();
    let first = CoWec::<RCell, u8, Counted>::new_right(&mut heap);
    heap.right_mut(first.address()).insert(0, counted(20, &drops));
    let second = first.clone(&mut heap);
    assert!(second.is_right());
    second.drop(&mut heap);
    assert_eq!(drops.get(), 0);
    assert_eq!(heap.right(first.address()).len(), 1);
    assert_eq!(heap.right(first.address()).get(0).id, 20);
    first.drop(&mut heap);
    assert_eq!(drops.get(), 1);
}

#[test]
fn blocks_of_both_kinds_live_side_by_side() {
    let mut heap = H::new();
    let l = CW::new_left(&mut heap);
    let r = CW::new_right(&mut heap);
    heap.left_mut(l.address()).insert(0, "Hello".to_owned());
    heap.right_mut(r.address()).insert(0, 42);
    heap.right_mut(r.address()).insert(1, 43);
    assert_eq!(heap.left(l.address()).len(), 1);
    assert_eq!(heap.left(l.address()).get(0), "Hello");
    assert_eq!(heap.right(r.address()).len(), 2);
    assert_eq!(*heap.right(r.address()).get(0), 42);
    assert_eq!(*heap.right(r.address()).get(1), 43);
    l.drop(&mut heap);
    assert_eq!(*heap.right(r.address()).get(1), 43);
    r.drop(&mut heap);
}

#[test]
fn a_write_through_one_handle_shows_through_its_clone() {
    let mut heap = H::new();
    let l = CW::new_left(&mut heap);
    let twin = l.clone(&mut heap);
    heap.left_mut(l.address()).insert(0, "Hello".to_owned());
    *heap.left_mut(twin.address()).get_mut(0) = "World".to_owned();
    assert_eq!(heap.left(l.address()).get(0), "World");
    l.drop(&mut heap);
    assert_eq!(heap.left(twin.address()).get(0), "World");
    twin.drop(&mut heap);
}

#[test]
fn try_clone_reports_a_full_counter() {
    let mut heap = H::new();
    let first = CW::new_left(&mut heap);
    let mut twins = Vec::new();
    for _ in 1..65535u32 {
        twins.push(first.try_clone(&mut heap).expect("the counter has room"));
    }
    assert!(first.try_clone(&mut heap).is_none());
    assert!(twins[0].try_clone(&mut heap).is_none());
    assert_eq!(heap.left(first.address()).capacity(), 2);
    let last = twins.pop().expect("there are clones");
    last.drop(&mut heap);
    let again = first.try_clone(&mut heap).expect("one reference was given up");
    assert!(again.is_left());
    assert_eq!(again.address(), first.address());
    assert!(first.try_clone(&mut heap).is_none());
}

#[test]
fn a_block_on_the_heap_can_be_resized_in_place() {
    let mut heap = H::new();
    let l = CW::new_left(&mut heap);
    heap.left_mut(l.address()).insert(0, "a".to_owned());
    heap.left_mut(l.address()).insert(1, "b".to_owned());
    let block = heap.left_mut(l.address());
    let full = std::mem::replace(block, CoWecBlock::create(2));
    *block = CoWecBlock::resize(full, 4);
    block.insert(2, "c".to_owned());
    assert_eq!(heap.left(l.address()).len(), 3);
    assert_eq!(heap.left(l.address()).capacity(), 4);
    assert_eq!(heap.left(l.address()).get(2), "c");
}

#[test]
fn an_empty_heap_has_room() {
    let heap = H::new();
    assert!(heap.has_room());
}
