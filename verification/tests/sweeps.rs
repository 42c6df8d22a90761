use diskann3_bench::ground_truth::{load_ground_truth, GroundTruth};
use diskann3_bench::inputs::{example, DiskIndexLoad, DiskSearchPhase, DataType, SimilarityMeasure};
use diskann3_bench::pass::{finish_pass, sum_comparisons, sum_latencies, PassResult, QueryReply};
use diskann3_bench::plan::{max_threads, RunError, SearchPlan};
use diskann3_bench::recall::Recall;
use diskann3_bench::sweep::{Sweep, SweepAction};
use diskann_disk::data_model::CachingStrategy;
use diskann_vector::distance::Metric;

fn reply(ids: &[u32], comparisons: u32) -> Option<QueryReply> {
    Some(QueryReply { ids: ids.to_vec(), comparisons })
}

fn pass(n: u128) -> PassResult {
    PassResult { num_queries: 2, elapsed_ns: n, total_latency_us: 0, total_comparisons: 0 }
}

fn search(search_list: &[u32], recall_at: u32) -> DiskSearchPhase {
    let mut search = example().search_phase;
    search.search_list = search_list.to_vec();
    search.recall_at = recall_at;
    search
}

fn truth() -> Option<GroundTruth> {
    let mut bytes = vec![2, 0, 0, 0, 1, 0, 0, 0];
    bytes.extend_from_slice(&7u32.to_ne_bytes());
    bytes.extend_from_slice(&9u32.to_ne_bytes());
    match load_ground_truth(&Some(bytes)) {
        Ok(gt) => gt,
        Err(_) => panic!("not a ground truth"),
    }
}

fn load() -> DiskIndexLoad {
    DiskIndexLoad { data_type: DataType::Float32, load_path: "idx".to_string() }
}

#[test]
fn most_threads_win() {
    assert_eq!(max_threads(&[2, 16, 8]), 16);
    assert_eq!(max_threads(&[0]), 1);
    assert_eq!(max_threads(&[]), 1);
}

#[test]
fn plan_follows_the_job() {
    let mut phase = search(&[10], 10);
    phase.num_nodes_to_cache = Some(500);
    phase.search_io_limit = Some(77);
    phase.distance = SimilarityMeasure::InnerProduct;
    let plan = match SearchPlan::new(&load(), &phase, &[4, 2]) {
        Ok(plan) => plan,
        Err(e) => panic!("{}", e.message()),
    };
    assert_eq!(plan.files.pq_pivot, "idx_pq_pivots.bin");
    assert_eq!(plan.files.compressed_pq, "idx_pq_compressed.bin");
    assert_eq!(plan.files.disk_index, "idx_disk.index");
    assert_eq!(plan.max_threads, 4);
    assert_eq!(plan.io_limit, 77);
    assert!(matches!(plan.caching, CachingStrategy::StaticCacheWithBfsNodes(500)));
    assert_eq!(plan.metric, Metric::InnerProduct);
}

#[test]
fn plan_has_defaults() {
    let plan = match SearchPlan::new(&load(), &search(&[10], 10), &[0]) {
        Ok(plan) => plan,
        Err(e) => panic!("{}", e.message()),
    };
    assert_eq!(plan.max_threads, 1);
    assert_eq!(plan.io_limit, usize::MAX);
    assert!(matches!(plan.caching, CachingStrategy::None));
    assert_eq!(plan.metric, Metric::L2);
}

#[test]
fn plan_needs_a_thread_count() {
    match SearchPlan::new(&load(), &search(&[10], 10), &[]) {
        Ok(_) => panic!("a plan"),
        Err(e) => {
            assert_eq!(e, RunError::NoThreadCounts);
            assert_eq!(e.message(), "thread_counts must not be empty");
        }
    }
}

#[test]
fn pass_is_summed_up() {
    let replies = vec![reply(&[4, 5], 10), reply(&[6], 20), reply(&[7, 8, 9], 30)];
    let (pass, found) = finish_pass(&replies, &[100, 200, 400], 5_000, 2, 64).unwrap();
    assert_eq!(
        pass,
        PassResult {
            num_queries: 3,
            elapsed_ns: 5_000,
            total_latency_us: 700,
            total_comparisons: 60,
        }
    );
    assert_eq!(found, vec![vec![4, 5], vec![6], vec![7, 8]]);
}

#[test]
fn pass_without_queries() {
    let (pass, found) = finish_pass(&vec![], &[], 1, 2, 64).unwrap();
    assert_eq!(pass.num_queries, 0);
    assert_eq!(pass.total_comparisons, 0);
    assert!(found.is_empty());
}

#[test]
fn reply_holds_only_what_was_found() {
    let reply = QueryReply::of_answer(vec![3, 0, 0], 1, 12);
    assert_eq!(reply.ids, vec![3]);
    assert_eq!(reply.comparisons, 12);
    assert_eq!(QueryReply::of_answer(vec![3, 4], 2, 0).ids, vec![3, 4]);
    assert_eq!(QueryReply::of_answer(vec![3, 4], 9, 0).ids, vec![3, 4]);
    assert!(QueryReply::of_answer(vec![0, 0], 0, 0).ids.is_empty());
}

#[test]
fn unfilled_slot_is_no_hit() {
    let mut bytes = vec![1, 0, 0, 0, 2, 0, 0, 0];
    bytes.extend_from_slice(&0u32.to_ne_bytes());
    bytes.extend_from_slice(&3u32.to_ne_bytes());
    let gt = match load_ground_truth(&Some(bytes)) {
        Ok(gt) => gt,
        Err(_) => panic!("not a ground truth"),
    };
    let replies = vec![Some(QueryReply::of_answer(vec![3, 0], 1, 5))];
    let (pass, found) = finish_pass(&replies, &[1], 1, 2, 64).unwrap();
    assert_eq!(found, vec![vec![3]]);
    let mut sweep = Sweep::new(&search(&[64], 2), &[1]).unwrap();
    sweep.pool_built();
    sweep.pass_done(pass, &found, &gt);
    sweep.row_closed();
    assert_eq!(sweep.finish().recalls, vec![Some(Recall { hits: 1, slots: 2 })]);
}

#[test]
fn pass_with_a_failed_query_has_no_result() {
    let replies = vec![reply(&[4, 5], 10), None];
    let error = finish_pass(&replies, &[1, 2], 3, 2, 128).unwrap_err();
    assert_eq!(error, RunError::QueriesFailed { l: 128 });
    assert_eq!(error.message(), "one or more queries failed at L=128");
}

#[test]
fn large_totals_do_not_overflow() {
    assert_eq!(sum_latencies(&[u64::MAX, u64::MAX]), 2 * u64::MAX as u128);
    let replies = vec![reply(&[], u32::MAX), None, reply(&[], u32::MAX)];
    assert_eq!(sum_comparisons(&replies), 2 * u32::MAX as u128);
}

#[test]
fn sweep_covers_the_grid_in_order() {
    let mut sweep = Sweep::new(&search(&[64, 128], 1), &[1, 4]).unwrap();
    let gt = truth();
    let mut log = Vec::new();
    let mut n = 0;
    loop {
        let action = sweep.next_action();
        log.push(action);
        match action {
            SweepAction::BuildPool { .. } => sweep.pool_built(),
            SweepAction::RunPass { .. } => {
                // The first pass finds one of two neighbours, the others find both.
                let found = if n == 0 {
                    vec![vec![7], vec![7]]
                } else {
                    vec![vec![7], vec![9]]
                };
                sweep.pass_done(pass(n), &found, &gt);
                n += 1;
            }
            SweepAction::CloseRow { .. } => sweep.row_closed(),
            SweepAction::Finish => break,
        }
    }
    assert_eq!(
        log,
        vec![
            SweepAction::BuildPool { num_threads: 1 },
            SweepAction::RunPass { l: 64 },
            SweepAction::RunPass { l: 128 },
            SweepAction::CloseRow { num_threads: 1 },
            SweepAction::BuildPool { num_threads: 4 },
            SweepAction::RunPass { l: 64 },
            SweepAction::RunPass { l: 128 },
            SweepAction::CloseRow { num_threads: 4 },
            SweepAction::Finish,
        ]
    );
    let stats = sweep.finish();
    assert_eq!(stats.recall_at, 1);
    assert_eq!(stats.beam_width, 4);
    assert_eq!(stats.search_list, vec![64, 128]);
    assert_eq!(
        stats.recalls,
        vec![Some(Recall { hits: 1, slots: 2 }), Some(Recall { hits: 2, slots: 2 })]
    );
    assert_eq!(stats.rows.len(), 2);
    assert_eq!(stats.rows[0].num_threads, 1);
    assert_eq!(stats.rows[0].passes, vec![pass(0), pass(1)]);
    assert_eq!(stats.rows[1].num_threads, 4);
    assert_eq!(stats.rows[1].passes, vec![pass(2), pass(3)]);
}

#[test]
fn sweep_without_ground_truth_has_no_recall() {
    let mut sweep = Sweep::new(&search(&[64], 1), &[2]).unwrap();
    sweep.pool_built();
    sweep.pass_done(pass(0), &vec![vec![7], vec![9]], &None);
    sweep.row_closed();
    assert_eq!(sweep.finish().recalls, vec![None]);
}

#[test]
fn sweep_without_search_lists_has_empty_rows() {
    let mut sweep = Sweep::new(&search(&[], 1), &[2]).unwrap();
    sweep.pool_built();
    assert_eq!(sweep.next_action(), SweepAction::CloseRow { num_threads: 2 });
    sweep.row_closed();
    assert_eq!(sweep.next_action(), SweepAction::Finish);
    let stats = sweep.finish();
    assert!(stats.recalls.is_empty());
    assert!(stats.rows[0].passes.is_empty());
}

#[test]
fn sweep_needs_a_thread_count() {
    assert_eq!(
        Sweep::new(&search(&[64], 1), &[]).unwrap_err(),
        RunError::NoThreadCounts
    );
}
