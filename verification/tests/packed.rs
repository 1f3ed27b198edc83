use cowec::packed::{
    class_of, pack_word, unpack_capacity, unpack_class, unpack_len, CAP_OFFSET, LEN_MASK,
    MAX_CLASS, MAX_LEN,
};

#[test]
fn header_word_constants() {
    assert_eq!(LEN_MASK, 0b0000_1111_1111_1111);
    assert_eq!(CAP_OFFSET, 12);
    assert_eq!(MAX_LEN, 4095);
    assert_eq!(MAX_CLASS, 15);
}

#[test]
fn pack_puts_the_class_above_the_length() {
    assert_eq!(pack_word(0, 0), 0x0000);
    assert_eq!(pack_word(1, 0), 0x1000);
    assert_eq!(pack_word(2, 3), 0x2003);
    assert_eq!(pack_word(15, 4095), 0xffff);
    assert_eq!(pack_word(0, 4095), 0x0fff);
    assert_eq!(pack_word(15, 0), 0xf000);
}

#[test]
fn unpack_reads_length_and_class() {
    assert_eq!(unpack_len(0x2003), 3);
    assert_eq!(unpack_class(0x2003), 2);
    assert_eq!(unpack_len(0xffff), 4095);
    assert_eq!(unpack_class(0xffff), 15);
    assert_eq!(unpack_len(0x1000), 0);
    assert_eq!(unpack_class(0x0fff), 0);
}

#[test]
fn pack_and_unpack_are_inverse() {
    for class in 0..=15u16 {
        for len in [0u16, 1, 2, 100, 4094, 4095] {
            let word = pack_word(class, len);
            assert_eq!(unpack_class(word), class);
            assert_eq!(unpack_len(word), len as usize);
        }
    }
    for word in [0u16, 1, 0x0fff, 0x1000, 0x1234, 0x8000, 0xffff] {
        assert_eq!(pack_word(unpack_class(word), unpack_len(word) as u16), word);
    }
}

#[test]
fn a_class_stands_for_a_power_of_two() {
    assert_eq!(unpack_capacity(0x1000), 2);
    assert_eq!(unpack_capacity(0x2000), 4);
    assert_eq!(unpack_capacity(0x3005), 8);
    assert_eq!(unpack_capacity(0xc000), 4096);
    assert_eq!(unpack_capacity(0xf000), 32768);
    assert_eq!(unpack_capacity(0xffff), 32768);
}

#[test]
fn a_tight_word_has_the_capacity_of_its_length() {
    assert_eq!(unpack_capacity(0x0000), 0);
    assert_eq!(unpack_capacity(0x0005), 5);
    assert_eq!(unpack_capacity(0x0fff), 4095);
}

#[test]
fn class_of_is_the_exponent() {
    assert_eq!(class_of(2), 1);
    assert_eq!(class_of(4), 2);
    assert_eq!(class_of(8), 3);
    assert_eq!(class_of(4096), 12);
    assert_eq!(class_of(32768), 15);
    for class in 1..=15u16 {
        assert_eq!(class_of(1usize << class), class);
        assert_eq!(unpack_capacity(pack_word(class, 0)), 1usize << class);
    }
}
