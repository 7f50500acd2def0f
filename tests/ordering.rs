use ge_pso::order_by_index;

#[test]
fn results_come_back_in_catalog_order() {
    let collected = vec![(3usize, "d"), (0, "a"), (4, "e"), (1, "b"), (2, "c")];
    let ordered = order_by_index(collected);
    assert_eq!(
        ordered,
        vec![(0usize, "a"), (1, "b"), (2, "c"), (3, "d"), (4, "e")]
    );
}

#[test]
fn every_completion_order_gives_the_same_rows() {
    let orders: [[usize; 5]; 4] = [[4, 3, 2, 1, 0], [0, 1, 2, 3, 4], [2, 0, 4, 1, 3], [1, 4, 0, 3, 2]];
    for order in orders {
        let collected: Vec<(usize, u64)> = order.iter().map(|&i| (i, 10 * i as u64)).collect();
        let ordered = order_by_index(collected);
        let indices: Vec<usize> = ordered.iter().map(|p| p.0).collect();
        assert_eq!(indices, vec![0, 1, 2, 3, 4]);
        for (i, row) in ordered.iter().enumerate() {
            assert_eq!(row.1, 10 * i as u64);
        }
    }
}

#[test]
fn equal_indices_are_kept() {
    let ordered = order_by_index(vec![(2usize, 'x'), (1, 'y'), (2, 'z'), (0, 'w')]);
    let indices: Vec<usize> = ordered.iter().map(|p| p.0).collect();
    assert_eq!(indices, vec![0, 1, 2, 2]);
    let mut payloads: Vec<char> = ordered.iter().map(|p| p.1).collect();
    payloads.sort();
    assert_eq!(payloads, vec!['w', 'x', 'y', 'z']);
}

#[test]
fn no_results_order_to_nothing() {
    let ordered: Vec<(usize, String)> = order_by_index(Vec::new());
    assert!(ordered.is_empty());
}
