use balancebeam::warmup::{add_n, add_n_inplace, dedup};

#[test]
fn test_add_n() {
    assert_eq!(add_n(vec![1], 2), vec![3]);
}

#[test]
fn test_add_n_inplace() {
    let mut v = vec![1];
    add_n_inplace(&mut v, 2);
    assert_eq!(v, vec![3]);
}

#[test]
fn test_dedup() {
    let mut v = vec![3, 1, 0, 1, 4, 4];
    dedup(&mut v);
    assert_eq!(v, vec![3, 1, 0, 4]);
}

#[test]
fn add_n_empty() {
    assert_eq!(add_n(vec![], 5), vec![]);
}

#[test]
fn add_n_negative() {
    assert_eq!(add_n(vec![10, -3, 0], -7), vec![3, -10, -7]);
}

#[test]
fn dedup_all_equal() {
    let mut v = vec![2, 2, 2, 2];
    dedup(&mut v);
    assert_eq!(v, vec![2]);
}

#[test]
fn dedup_empty() {
    let mut v: Vec<i32> = vec![];
    dedup(&mut v);
    assert_eq!(v, Vec::<i32>::new());
}
