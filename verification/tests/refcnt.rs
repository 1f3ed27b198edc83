use cowec::refcnt::{RCell, RefCnt, MAX_REFS};

#[test]
fn a_fresh_counter_holds_one_reference() {
    let mut counter = RCell::default();
    assert!(counter.dec_ref());
}

#[test]
fn dec_ref_tells_when_the_count_reaches_zero() {
    let mut counter = RCell::default();
    assert!(counter.inc_ref());
    assert!(counter.inc_ref());
    assert!(!counter.dec_ref());
    assert!(!counter.dec_ref());
    assert!(counter.dec_ref());
}

#[test]
fn inc_ref_fails_at_65535_and_changes_nothing() {
    assert_eq!(MAX_REFS, 65535);
    let mut counter = RCell::default();
    for _ in 1..65535u32 {
        assert!(counter.inc_ref());
    }
    assert!(!counter.inc_ref());
    assert!(!counter.inc_ref());
    for _ in 1..65535u32 {
        assert!(!counter.dec_ref());
    }
    assert!(counter.dec_ref());
}
