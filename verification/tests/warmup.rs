use deet::warmup::{add_n, add_n_inplace, contains_val, dedup};

#[test]
fn test_add_n() {
    assert_eq!(add_n(vec![1], 2), vec![3]);
}

#[test]
fn test_add_n_inplace() {
    let mut v = vec![1];
    add_n_inplace(&mut v, 2);
    assert_eq!(v, vec![3]);
}

#[test]
fn test_dedup() {
    let mut v = vec![3, 1, 0, 1, 4, 4];
    dedup(&mut v);
    assert_eq!(v, vec![3, 1, 0, 4]);
}

#[test]
fn test_add_n_empty() {
    assert_eq!(add_n(vec![], 7), vec![]);
    assert_eq!(add_n(vec![-3, 0, 5], -2), vec![-5, -2, 3]);
}

#[test]
fn test_dedup_empty_and_all_equal() {
    let mut v: Vec<i32> = vec![];
    dedup(&mut v);
    assert_eq!(v, vec![]);
    let mut w = vec![2, 2, 2, 2];
    dedup(&mut w);
    assert_eq!(w, vec![2]);
}

#[test]
fn test_dedup_keeps_first_occurrence_order() {
    let mut v = vec![5, 4, 5, 3, 4, 5, 2];
    dedup(&mut v);
    assert_eq!(v, vec![5, 4, 3, 2]);
}

#[test]
fn test_contains_val() {
    let v = vec![1, 2, 3];
    assert!(contains_val(&v, 2));
    assert!(!contains_val(&v, 9));
}
