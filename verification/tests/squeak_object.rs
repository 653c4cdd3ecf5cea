use squeak::squeak_object::{getLenS, isPointerS, SVal};

#[test]
fn pointer_words_are_even() {
    assert!(isPointerS(0));
    assert!(isPointerS(4));
    assert!(!isPointerS(5));
    assert!(!isPointerS(u64::MAX));
}

#[test]
fn length_is_six_bits_after_the_tag() {
    assert_eq!(getLenS(252), 63);
    assert_eq!(getLenS(256), 0);
    assert_eq!(getLenS(4 * 7 + 3), 7);
    assert!(getLenS(u64::MAX) < 64);
}

#[test]
fn track_marks_the_child_of_every_even_slot() {
    // slots 2, 3, 4 are walked: 2 and 4 are even.
    let heap: Vec<u64> = vec![0, 0, 4 * 5, 100, 4 * 9 + 1, 200, 0];
    let children = SVal::new(2, 3).track(&heap);
    assert_eq!(children, vec![SVal::new(100, 5), SVal::new(200, 9)]);
}

#[test]
fn track_of_empty_value_marks_nothing() {
    let heap: Vec<u64> = vec![];
    assert_eq!(SVal::new(7, 0).track(&heap), vec![]);
}

#[test]
fn track_skips_odd_slots() {
    let heap: Vec<u64> = vec![9, 9, 9];
    assert_eq!(SVal::new(1, 1).track(&heap), vec![]);
}

#[test]
fn finalize_releases_the_word_before_the_pointer() {
    assert_eq!(SVal::new(17, 4).finalize(), (16, 4));
}
