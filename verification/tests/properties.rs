use co_sort::LengthMismatch;
use co_sort::Permutation;
use co_sort::co_sort1;
use co_sort::co_sort2;
use co_sort::co_sort_stable1;
use co_sort::co_sort_stable2;

#[test]
fn co_sorting_names_and_ages() {
    let mut names = vec![
        "Diego".to_string(),
        "Maia".to_string(),
        "Luciana".to_string(),
        "Bruno".to_string(),
        "Astrid".to_string(),
        "Thierry".to_string(),
    ];
    let mut ages = vec![73, 88, 21, 47, 4, 62];
    co_sort2(&mut names, &mut ages).unwrap();
    assert_eq!(
        names,
        ["Astrid", "Bruno", "Diego", "Luciana", "Maia", "Thierry"]
    );
    assert_eq!(ages, [4, 47, 73, 21, 88, 62]);
}

#[test]
fn co_sorting_names_and_ages_stable() {
    let mut names = vec![
        "Diego".to_string(),
        "Maia".to_string(),
        "Luciana".to_string(),
        "Bruno".to_string(),
        "Astrid".to_string(),
        "Thierry".to_string(),
    ];
    let mut ages = vec![73, 88, 21, 47, 4, 62];
    co_sort_stable2(&mut names, &mut ages).unwrap();
    assert_eq!(
        names,
        ["Astrid", "Bruno", "Diego", "Luciana", "Maia", "Thierry"]
    );
    assert_eq!(ages, [4, 47, 73, 21, 88, 62]);
}

#[test]
fn primary_sorted_with_duplicate_keys() {
    let mut keys = vec![3, 1, 3, 0, 1];
    let mut tags = vec!['c', 'b', 'd', 'a', 'e'];
    co_sort2(&mut keys, &mut tags).unwrap();
    assert_eq!(keys, [0, 1, 1, 3, 3]);
    // Which of two equal keys comes first is unspecified, but each key must
    // keep the tag it started with.
    let mut pairs: Vec<(i32, char)> = keys.iter().cloned().zip(tags.iter().cloned()).collect();
    pairs.sort();
    assert_eq!(pairs, [(0, 'a'), (1, 'b'), (1, 'e'), (3, 'c'), (3, 'd')]);
}

#[test]
fn apply_and_apply_stable_agree() {
    let keys = [9, 2, 2, 7, 0, 5];
    let order = Permutation::from_orderable(keys.as_ref());
    let mut in_place = (vec![10u64, 20, 30, 40, 50, 60], vec!["x".to_string(),
        "y".to_string(), "z".to_string(), "u".to_string(), "v".to_string(), "w".to_string()]);
    let mut copied = in_place.clone();
    order.co_sort(&mut in_place).unwrap();
    order.co_sort_stable(&mut copied).unwrap();
    assert_eq!(in_place.0, copied.0);
    assert_eq!(in_place.1, copied.1);
}

#[test]
fn identity_permutation_is_noop() {
    let sorted_keys = [1, 2, 3, 4];
    let order = Permutation::from_orderable(sorted_keys.as_ref());
    assert_eq!(order.as_indices(), [0, 1, 2, 3]);
    let mut group = (vec![4, 3, 2, 1], vec!['d', 'c', 'b', 'a']);
    order.co_sort(&mut group).unwrap();
    assert_eq!(group.0, [4, 3, 2, 1]);
    assert_eq!(group.1, ['d', 'c', 'b', 'a']);
    order.co_sort_stable(&mut group).unwrap();
    assert_eq!(group.0, [4, 3, 2, 1]);
    assert_eq!(group.1, ['d', 'c', 'b', 'a']);
}

#[test]
fn reapplying_after_one_sort_is_noop() {
    let mut keys = vec![31, 7, 22, 7, 5];
    let mut companion = vec!['p', 'q', 'r', 's', 't'];
    co_sort2(&mut keys, &mut companion).unwrap();
    let keys_once = keys.clone();
    let companion_once = companion.clone();
    // Re-derive from the now sorted primary and reapply: nothing may move.
    co_sort2(&mut keys, &mut companion).unwrap();
    assert_eq!(keys, keys_once);
    assert_eq!(companion, companion_once);
    co_sort_stable2(&mut keys, &mut companion).unwrap();
    assert_eq!(keys, keys_once);
    assert_eq!(companion, companion_once);
}

#[test]
fn empty_group_succeeds() {
    let no_keys: [u64; 0] = [];
    let order = Permutation::from_orderable(no_keys.as_ref());
    assert_eq!(order.len(), 0);
    let mut group = (Vec::<u64>::new(), Vec::<char>::new());
    assert_eq!(order.co_sort(&mut group), Ok(()));
    assert_eq!(order.co_sort_stable(&mut group), Ok(()));
    assert_eq!(group.0, []);
    assert_eq!(group.1, []);
}

#[test]
fn singleton_group_is_noop() {
    let order = Permutation::from_orderable([42].as_ref());
    let mut group = (vec![7u8], vec!["only".to_string()]);
    order.co_sort(&mut group).unwrap();
    assert_eq!(group.0, [7u8]);
    assert_eq!(group.1, ["only"]);
    order.co_sort_stable(&mut group).unwrap();
    assert_eq!(group.0, [7u8]);
    assert_eq!(group.1, ["only"]);
}

#[test]
fn length_mismatch_mutates_nothing() {
    let order = Permutation::from_orderable([2, 0, 1].as_ref());
    let mut group = (vec![10, 20, 30], vec!['a', 'b']);
    assert_eq!(order.co_sort(&mut group), Err(LengthMismatch));
    assert_eq!(group.0, [10, 20, 30]);
    assert_eq!(group.1, ['a', 'b']);
    assert_eq!(order.co_sort_stable(&mut group), Err(LengthMismatch));
    assert_eq!(group.0, [10, 20, 30]);
    assert_eq!(group.1, ['a', 'b']);
    let mut lone = vec![1, 2, 3, 4];
    assert_eq!(order.co_sort(&mut lone), Err(LengthMismatch));
    assert_eq!(lone, [1, 2, 3, 4]);
}

#[test]
fn single_sequence_groups() {
    let order = Permutation::from_orderable([30, 10, 20].as_ref());
    assert_eq!(order.as_indices(), [1, 2, 0]);
    let mut v = vec![30, 10, 20];
    order.co_sort(&mut v).unwrap();
    assert_eq!(v, [10, 20, 30]);
    let mut w = (vec!["c".to_string(), "a".to_string(), "b".to_string()],);
    order.co_sort_stable(&mut w).unwrap();
    assert_eq!(w.0, ["a", "b", "c"]);
}

#[test]
fn four_sequences_share_one_permutation() {
    let order = Permutation::from_orderable([2, 0, 1].as_ref());
    let mut group = (
        vec![2, 0, 1],
        vec!['x', 'y', 'z'],
        vec!["two".to_string(), "zero".to_string(), "one".to_string()],
        vec![20u64, 0, 10],
    );
    order.co_sort(&mut group).unwrap();
    assert_eq!(group.0, [0, 1, 2]);
    assert_eq!(group.1, ['y', 'z', 'x']);
    assert_eq!(group.2, ["zero", "one", "two"]);
    assert_eq!(group.3, [0, 10, 20]);
    let mut again = (
        vec![2, 0, 1],
        vec!['x', 'y', 'z'],
        vec!["two".to_string(), "zero".to_string(), "one".to_string()],
        vec![20u64, 0, 10],
    );
    order.co_sort_stable(&mut again).unwrap();
    assert_eq!(again.0, group.0);
    assert_eq!(again.1, group.1);
    assert_eq!(again.2, group.2);
    assert_eq!(again.3, group.3);
}

#[test]
fn explicit_indices_round_trip() {
    let order = Permutation::from_indices(vec![0, 5, 2, 4, 3, 1]).unwrap();
    let mut letters = vec!['a', 'b', 'c', 'd', 'e', 'f'];
    order.co_sort(&mut letters).unwrap();
    assert_eq!(letters, ['a', 'f', 'c', 'e', 'd', 'b']);
    assert_eq!(order.into_indices(), [0, 5, 2, 4, 3, 1]);
}

#[test]
fn invalid_indices_are_rejected() {
    // An out-of-range index.
    assert!(Permutation::from_indices(vec![0, 3, 1]).is_none());
    // A repeated index.
    assert!(Permutation::from_indices(vec![0, 1, 1]).is_none());
    // The empty bijection is fine.
    assert!(Permutation::from_indices(Vec::new()).is_some());
}

#[test]
fn degenerate_entry_points_sort_directly() {
    let mut v = vec![5, 3, 9, 1, 3];
    co_sort1(&mut v);
    assert_eq!(v, [1, 3, 3, 5, 9]);
    let mut w = vec!["pear".to_string(), "apple".to_string(), "plum".to_string()];
    co_sort_stable1(&mut w);
    assert_eq!(w, ["apple", "pear", "plum"]);
}
