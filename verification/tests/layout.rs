use cowec::block::CoWecBlock;
use cowec::refcnt::RCell;
use std::mem::{align_of, size_of};

#[test]
fn layout_of_a_block_of_bytes() {
    assert_eq!(size_of::<RCell>(), 2);
    assert_eq!(align_of::<RCell>(), 2);
    let layout = CoWecBlock::<RCell, u8>::layout(2);
    assert_eq!(layout.data_offset, 4);
    assert_eq!(layout.size, 6);
    assert_eq!(layout.align, 2);
    let layout = CoWecBlock::<RCell, u8>::layout(32768);
    assert_eq!(layout.data_offset, 4);
    assert_eq!(layout.size, 32772);
    assert_eq!(layout.align, 2);
}

#[test]
fn layout_pads_the_header_for_wider_elements() {
    let layout = CoWecBlock::<RCell, u32>::layout(4);
    assert_eq!(layout.data_offset, 4);
    assert_eq!(layout.size, 20);
    assert_eq!(layout.align, 4);
    let layout = CoWecBlock::<RCell, u64>::layout(4);
    assert_eq!(layout.data_offset, 8);
    assert_eq!(layout.size, 40);
    assert_eq!(layout.align, 8);
    let layout = CoWecBlock::<RCell, u128>::layout(2);
    assert_eq!(layout.data_offset, 16);
    assert_eq!(layout.size, 48);
    assert_eq!(layout.align, 16);
}

#[test]
fn layout_of_a_block_of_strings() {
    let layout = CoWecBlock::<RCell, String>::layout(4);
    assert_eq!(layout.data_offset % align_of::<String>(), 0);
    assert_eq!(layout.size, layout.data_offset + 4 * size_of::<String>());
    assert_eq!(layout.align, align_of::<String>());
    assert_eq!(layout.data_offset, 8);
    assert_eq!(layout.size, 104);
    assert_eq!(layout.align, 8);
}

#[test]
fn layout_of_a_block_without_payload_bytes() {
    let layout = CoWecBlock::<RCell, ()>::layout(8);
    assert_eq!(layout.data_offset, 4);
    assert_eq!(layout.size, 4);
    assert_eq!(layout.align, 2);
}

#[test]
fn try_layout_agrees_with_layout() {
    let tried = CoWecBlock::<RCell, u64>::try_layout(16).expect("a small block fits");
    let layout = CoWecBlock::<RCell, u64>::layout(16);
    assert_eq!(tried.size, layout.size);
    assert_eq!(tried.align, layout.align);
    assert_eq!(tried.data_offset, layout.data_offset);
    assert_eq!(tried.size, 8 + 16 * 8);
}

#[test]
fn try_layout_refuses_what_cannot_be_allocated() {
    assert!(CoWecBlock::<RCell, u64>::try_layout(usize::MAX).is_none());
    assert!(CoWecBlock::<RCell, u64>::try_layout(usize::MAX / 8).is_none());
    assert!(CoWecBlock::<RCell, u8>::try_layout(isize::MAX as usize).is_none());
    assert!(CoWecBlock::<RCell, u8>::try_layout(isize::MAX as usize - 4).is_none());
    let largest = CoWecBlock::<RCell, u8>::try_layout(isize::MAX as usize - 5)
        .expect("the largest block of bytes");
    assert_eq!(largest.size, isize::MAX as usize - 1);
    assert_eq!(largest.align, 2);
}
