use chrozone::select::{select_top, top_n_by_key};

#[test]
fn partial_sort_works() {
    let mut items = [2, 1, 4, 5, 0];
    top_n_by_key(&mut items, 2, Clone::clone);
    assert_eq!(items, [0, 1, 2, 4, 5]);

    let mut items = [2, 10, 4, 5, 0, 1, 3];
    top_n_by_key(&mut items, 3, Clone::clone);
    assert_eq!(items, [0, 1, 2, 3, 4, 5, 10]);

    let mut items = [4, 5, 3, 2, 1];
    top_n_by_key(&mut items, 1, Clone::clone);
    assert_eq!(items, [1, 2, 3, 4, 5]);
}

#[test]
fn long_input_prefix_is_smallest_and_sorted() {
    let mut items: Vec<u64> = (0..200u64).map(|i| (i * 7919) % 200).collect();
    top_n_by_key(&mut items, 10, Clone::clone);
    assert_eq!(&items[..11], &[0, 1, 2, 3, 4, 5, 6, 7, 8, 9, 10]);
    let mut rest = items[11..].to_vec();
    rest.sort();
    assert_eq!(rest, (11..200u64).collect::<Vec<_>>());
}

#[test]
fn equal_keys_keep_earlier_items_first() {
    let mut items = [(5u64, 'a'), (1, 'b'), (5, 'c'), (1, 'd'), (3, 'e')];
    top_n_by_key(&mut items, 3, |p: &(u64, char)| p.0);
    assert_eq!(&items[..4], &[(1, 'b'), (1, 'd'), (3, 'e'), (5, 'a')]);
}

#[test]
fn zero_count_puts_smallest_first() {
    let keys: Vec<u64> = (0..40u64).rev().collect();
    let order = select_top(&keys, 0);
    assert_eq!(order[0], 39);
    let mut all = order.clone();
    all.sort();
    assert_eq!(all, (0..40usize).collect::<Vec<_>>());
}

#[test]
fn all_but_one_leaves_largest_last() {
    let keys: Vec<u64> = vec![9, 3, 7, 1, 8, 2, 6, 4, 5, 0, 11, 10, 15, 13, 12, 14, 19, 17, 16, 18];
    let order = select_top(&keys, keys.len() - 1);
    let ranked: Vec<u64> = order.iter().map(|&p| keys[p]).collect();
    assert_eq!(ranked, (0..20u64).collect::<Vec<_>>());
}
