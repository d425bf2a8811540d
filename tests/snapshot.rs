use snapfaas::snapshot::{restore_memory, RestoreError};

#[test]
fn diff_layers_apply_in_order() {
    let base = vec![10u64, 11, 12, 13, 14];
    let d1 = vec![(1usize, 21u64), (3, 23)];
    let d2 = vec![(2usize, 32u64)];
    let d3 = vec![(3usize, 43u64), (4, 44)];
    let mem = restore_memory(&base, &vec![d1, d2, d3]).unwrap();
    assert_eq!(mem, vec![10, 21, 32, 43, 44]);
}

#[test]
fn later_write_in_a_layer_wins() {
    let base = vec![0u64; 3];
    let d = vec![(1usize, 5u64), (1, 6), (0, 7)];
    assert_eq!(restore_memory(&base, &vec![d]).unwrap(), vec![7, 6, 0]);
}

#[test]
fn no_diffs_gives_base() {
    let base = vec![1u64, 2, 3];
    assert_eq!(restore_memory(&base, &vec![]).unwrap(), base);
    assert_eq!(restore_memory(&base, &vec![vec![]]).unwrap(), base);
    assert_eq!(restore_memory(&vec![], &vec![]).unwrap(), Vec::<u64>::new());
}

#[test]
fn page_beyond_base_is_inconsistent() {
    let base = vec![1u64, 2];
    let d1 = vec![(0usize, 9u64)];
    let d2 = vec![(2usize, 9u64)];
    assert_eq!(restore_memory(&base, &vec![d1, d2]), Err(RestoreError::InconsistentChain));
}
