use co_sort::Permutation;
use co_sort::co_sort3;
use co_sort::co_sort_stable3;

#[test]
fn sort() {
    let order = Permutation::from_orderable([0, 5, 2, 4, 3, 1].as_ref());
    let mut slice1 = vec!['a', 'b', 'c', 'd', 'e', 'f'];
    let mut slice2 = vec![147, 6478, 555, 264, 8, 52];
    let mut group = (slice1, slice2);
    order.co_sort(&mut group).unwrap();
    slice1 = group.0;
    slice2 = group.1;
    assert_eq!(slice1, ['a', 'f', 'c', 'e', 'd', 'b']);
    assert_eq!(slice2, [147, 52, 555, 8, 264, 6478]);
}

#[test]
fn sort_stable() {
    let slice0 = [0, 5, 2, 4, 3, 1];
    let order = Permutation::from_orderable(slice0.as_ref());
    let mut slice1 = vec!['a', 'b', 'c', 'd', 'e', 'f'];
    let mut slice2 = vec![147, 6478, 555, 264, 8, 52];
    let mut group = (slice1, slice2);
    order.co_sort_stable(&mut group).unwrap();
    slice1 = group.0;
    slice2 = group.1;
    assert_eq!(slice0, [0, 5, 2, 4, 3, 1]);
    assert_eq!(order.as_indices(), [0, 5, 2, 4, 3, 1]);
    assert_eq!(slice1, ['a', 'f', 'c', 'e', 'd', 'b']);
    assert_eq!(slice2, [147, 52, 555, 8, 264, 6478]);
}

#[test]
#[should_panic]
fn len() {
    let order = Permutation::from_orderable([0, 5, 2, 4, 3, 1].as_ref());
    let mut slice1 = vec!['a', 'b', 'c', 'd', 'e'];
    order.co_sort(&mut slice1).unwrap();
}

#[test]
fn macro_test() {
    let mut order = vec![0, 5, 2, 4, 3, 1];
    let mut slice1 = vec!['a', 'b', 'c', 'd', 'e', 'f'];
    let mut slice2 = vec![147, 6478, 555, 264, 8, 52];
    co_sort3(&mut order, &mut slice1, &mut slice2).unwrap();
    assert_eq!(slice1, ['a', 'f', 'c', 'e', 'd', 'b']);
    assert_eq!(slice2, [147, 52, 555, 8, 264, 6478]);
}

#[test]
fn macro_test_stable() {
    let mut order = vec![0, 5, 2, 4, 3, 1];
    let mut slice1 = vec!['a', 'b', 'c', 'd', 'e', 'f'];
    let mut slice2 = vec![147, 6478, 555, 264, 8, 52];
    co_sort_stable3(&mut order, &mut slice1, &mut slice2).unwrap();
    assert_eq!(slice1, ['a', 'f', 'c', 'e', 'd', 'b']);
    assert_eq!(slice2, [147, 52, 555, 8, 264, 6478]);
}
