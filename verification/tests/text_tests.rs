use transparency::text::{item_end, trimmed};

#[test]
fn items_end_at_commas_and_at_the_end() {
    assert_eq!(item_end("a,bc,,d", 0), 1);
    assert_eq!(item_end("a,bc,,d", 2), 4);
    assert_eq!(item_end("a,bc,,d", 5), 5);
    assert_eq!(item_end("a,bc,,d", 6), 7);
    assert_eq!(item_end("a,bc,,d", 7), 7);
    assert_eq!(item_end("", 0), 0);
}

#[test]
fn blanks_are_trimmed_off_both_ends() {
    assert_eq!(trimmed(" \ta b\t ", 0, 7), "a b");
    assert_eq!(trimmed("x, a ,y", 2, 5), "a");
    assert_eq!(trimmed("   ", 0, 3), "");
    assert_eq!(trimmed("abc", 1, 1), "");
    assert_eq!(trimmed("abc", 0, 3), "abc");
}
