use crossfire::removal::remove_marked;

#[test]
fn batch_removal_preserves_order() {
    // Indices 1 and 3 marked out of five elements: the three survivors keep
    // their relative order and none is skipped or duplicated.
    let mut v: Vec<u32> = vec![10, 11, 12, 13, 14];
    let dead = vec![false, true, false, true, false];
    remove_marked(&mut v, &dead);
    assert_eq!(v, vec![10, 12, 14]);
}

#[test]
fn batch_removal_none_marked() {
    let mut v: Vec<u32> = vec![1, 2, 3];
    let dead = vec![false, false, false];
    remove_marked(&mut v, &dead);
    assert_eq!(v, vec![1, 2, 3]);
}

#[test]
fn batch_removal_all_marked() {
    let mut v: Vec<u32> = vec![1, 2, 3];
    let dead = vec![true, true, true];
    remove_marked(&mut v, &dead);
    assert!(v.is_empty());
}

#[test]
fn batch_removal_adjacent_marks() {
    let mut v: Vec<u32> = vec![0, 1, 2, 3, 4, 5];
    let dead = vec![true, true, false, false, true, true];
    remove_marked(&mut v, &dead);
    assert_eq!(v, vec![2, 3]);
}
