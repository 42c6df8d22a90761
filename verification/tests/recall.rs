use diskann3_bench::ground_truth::{load_ground_truth, GroundTruth, GroundTruthError};
use diskann3_bench::recall::{recall_at_k, recall_of_found, Recall};

fn ibin(npoints: u32, ndims: u32, cells: &[u32]) -> Vec<u8> {
    let mut bytes = Vec::new();
    bytes.extend_from_slice(&npoints.to_le_bytes());
    bytes.extend_from_slice(&ndims.to_le_bytes());
    for cell in cells {
        bytes.extend_from_slice(&cell.to_ne_bytes());
    }
    bytes
}

fn truth(rows: u32, width: u32, cells: &[u32]) -> GroundTruth {
    match load_ground_truth(&Some(ibin(rows, width, cells))) {
        Ok(Some(gt)) => gt,
        _ => panic!("not a ground truth"),
    }
}

fn load_error(bytes: Vec<u8>) -> GroundTruthError {
    match load_ground_truth(&Some(bytes)) {
        Ok(_) => panic!("a ground truth"),
        Err(e) => e,
    }
}

#[test]
fn no_ground_truth_file_is_no_ground_truth() {
    assert!(matches!(load_ground_truth(&None), Ok(None)));
}

#[test]
fn ground_truth_has_a_row_for_each_declared_point() {
    let gt = truth(2, 3, &[1, 2, 3, 4, 5, 6]);
    assert!(gt.covers(0));
    assert!(gt.covers(2));
    assert!(!gt.covers(3));
}

#[test]
fn bytes_behind_the_last_cell_are_ignored() {
    let mut bytes = ibin(1, 2, &[7, 8]);
    bytes.push(99);
    match load_ground_truth(&Some(bytes)) {
        Ok(Some(gt)) => assert_eq!(recall_at_k(&[8, 7], &gt, 1, 2).hits, 2),
        _ => panic!("not a ground truth"),
    }
}

#[test]
fn truncated_header_is_refused() {
    assert_eq!(load_error(vec![1, 0, 0, 0, 1, 0, 0]), GroundTruthError::TruncatedHeader);
    assert_eq!(load_error(vec![]).message(), "failed to fill whole buffer");
}

#[test]
fn missing_cells_are_refused() {
    let error = load_error(ibin(2, 3, &[1, 2, 3, 4, 5]));
    assert_eq!(
        error,
        GroundTruthError::SizeMismatch {
            expected: 24,
            available: 20,
            npoints: 2,
            ndims: 3,
            type_size: 4,
        }
    );
    assert_eq!(
        error.message(),
        "binary data too short: header declares 2 points × 3 dims × 4 bytes = 24 bytes, \
         but only 20 bytes available"
    );
}

#[test]
fn overflowing_header_is_refused() {
    let error = load_error(ibin(u32::MAX, u32::MAX, &[]));
    assert_eq!(
        error,
        GroundTruthError::Overflow { npoints: u32::MAX, ndims: u32::MAX, type_size: 4 }
    );
    assert_eq!(
        error.message(),
        "header dimensions overflow: 4294967295 points × 4294967295 dims × 4 bytes overflows"
    );
}

#[test]
fn recall_counts_ids_among_the_k_nearest() {
    let gt = truth(2, 4, &[1, 2, 3, 4, 5, 6, 7, 8]);
    // The first query finds 2 and 1, the second 6; 8 is not among the three nearest.
    let ids = [2, 1, 9, 8, 6, 0];
    assert_eq!(recall_at_k(&ids, &gt, 2, 3), Recall { hits: 3, slots: 6 });
}

#[test]
fn full_recall_is_one_in_any_order() {
    let gt = truth(2, 2, &[1, 2, 3, 4]);
    assert_eq!(recall_at_k(&[1, 2, 3, 4], &gt, 2, 2), Recall { hits: 4, slots: 4 });
    assert_eq!(recall_at_k(&[2, 1, 4, 3], &gt, 2, 2), Recall { hits: 4, slots: 4 });
}

#[test]
fn no_recall_where_nothing_is_found() {
    let gt = truth(2, 2, &[1, 2, 3, 4]);
    assert_eq!(recall_at_k(&[3, 4, 1, 2], &gt, 2, 2), Recall { hits: 0, slots: 4 });
}

#[test]
fn repeated_ids_count_once() {
    let gt = truth(1, 3, &[5, 6, 7]);
    assert_eq!(recall_at_k(&[5, 5, 6], &gt, 1, 3), Recall { hits: 2, slots: 3 });
}

#[test]
fn narrow_ground_truth_is_used_as_far_as_it_goes() {
    let gt = truth(1, 2, &[5, 6]);
    assert_eq!(recall_at_k(&[1, 2, 6], &gt, 1, 3), Recall { hits: 1, slots: 3 });
}

#[test]
fn ground_truth_without_columns_has_no_hits() {
    let gt = truth(2, 0, &[]);
    assert_eq!(recall_at_k(&[1, 2], &gt, 2, 1), Recall { hits: 0, slots: 2 });
}

#[test]
fn no_queries_have_no_slots() {
    let gt = truth(1, 1, &[1]);
    assert_eq!(recall_at_k(&[], &gt, 0, 5), Recall { hits: 0, slots: 0 });
}

#[test]
fn only_the_given_number_of_queries_counts() {
    let gt = truth(3, 1, &[1, 2, 3]);
    assert_eq!(recall_at_k(&[1, 2, 3], &gt, 2, 1), Recall { hits: 2, slots: 2 });
}

#[test]
fn shorter_lists_have_fewer_hits() {
    let gt = truth(1, 2, &[0, 3]);
    assert_eq!(recall_of_found(&vec![vec![3]], &gt, 2), Recall { hits: 1, slots: 2 });
    assert_eq!(recall_of_found(&vec![vec![3, 0]], &gt, 2), Recall { hits: 2, slots: 2 });
    assert_eq!(recall_of_found(&vec![vec![]], &gt, 2), Recall { hits: 0, slots: 2 });
}

#[test]
fn found_lists_and_full_slots_agree() {
    let gt = truth(2, 4, &[1, 2, 3, 4, 5, 6, 7, 8]);
    let found = vec![vec![2, 1, 9], vec![8, 6, 0]];
    assert_eq!(
        recall_of_found(&found, &gt, 3),
        recall_at_k(&[2, 1, 9, 8, 6, 0], &gt, 2, 3)
    );
    assert_eq!(recall_of_found(&found, &gt, 3), Recall { hits: 3, slots: 6 });
}

#[test]
fn lists_longer_than_k_have_at_most_k_hits() {
    let gt = truth(1, 3, &[5, 6, 7]);
    assert_eq!(recall_of_found(&vec![vec![5, 6, 7]], &gt, 2), Recall { hits: 2, slots: 2 });
}

#[test]
fn no_lists_have_no_slots() {
    let gt = truth(1, 1, &[1]);
    assert_eq!(recall_of_found(&vec![], &gt, 5), Recall { hits: 0, slots: 0 });
}
