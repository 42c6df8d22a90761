use diskann3_bench::inputs::{
    example, DataType, DiskIndexBuild, DiskIndexLoad, DiskIndexOperation, DiskIndexSource,
    DiskSearchPhase, DispatchError, JobError, Problem, SimilarityMeasure,
};
use diskann3_bench::storage::{FileListing, IndexFiles, JobFile};
use diskann_vector::distance::Metric;

fn listing(paths: &[&str]) -> FileListing {
    let mut listing = FileListing::new();
    for path in paths {
        listing.insert(path.to_string());
    }
    listing
}

const EXAMPLE_FILES: [&str; 5] = [
    "sample_index_l50_r32_pq_pivots.bin",
    "sample_index_l50_r32_pq_compressed.bin",
    "sample_index_l50_r32_disk.index",
    "queries.fbin",
    "groundtruth.ibin",
];

fn refusal(op: &DiskIndexOperation) -> String {
    op.validate(&listing(&EXAMPLE_FILES)).unwrap_err().message()
}

fn build_job() -> DiskIndexOperation {
    DiskIndexOperation {
        source: DiskIndexSource::Build(DiskIndexBuild {
            data_type: DataType::Float32,
            data: "base.fbin".to_string(),
            distance: SimilarityMeasure::Cosine,
            dim: 128,
            max_degree: 32,
            l_build: 50,
            save_path: "built".to_string(),
        }),
        search_phase: example().search_phase,
    }
}

fn load_of(op: &mut DiskIndexOperation) -> &mut DiskIndexLoad {
    match &mut op.source {
        DiskIndexSource::Load(load) => load,
        DiskIndexSource::Build(_) => panic!("not a load"),
    }
}

#[test]
fn example_has_the_documented_shape() {
    let op = example();
    match &op.source {
        DiskIndexSource::Load(load) => {
            assert_eq!(load.data_type, DataType::Float32);
            assert_eq!(load.load_path, "sample_index_l50_r32");
        }
        DiskIndexSource::Build(_) => panic!("not a load"),
    }
    let search = &op.search_phase;
    assert_eq!(search.queries, "queries.fbin");
    assert_eq!(search.groundtruth.as_deref(), Some("groundtruth.ibin"));
    assert_eq!(search.num_threads, 8);
    assert_eq!(search.beam_width, 4);
    assert_eq!(search.search_list, vec![64, 128, 256]);
    assert_eq!(search.recall_at, 10);
    assert!(!search.is_flat_search);
    assert_eq!(search.distance, SimilarityMeasure::SquaredL2);
    assert_eq!(search.vector_filters_file, None);
    assert_eq!(search.num_nodes_to_cache, None);
    assert_eq!(search.search_io_limit, None);
}

#[test]
fn index_files_share_the_prefix() {
    let files = IndexFiles::of_prefix("dir/idx");
    assert_eq!(files.pq_pivot, "dir/idx_pq_pivots.bin");
    assert_eq!(files.compressed_pq, "dir/idx_pq_compressed.bin");
    assert_eq!(files.disk_index, "dir/idx_disk.index");
}

#[test]
fn index_files_of_empty_prefix() {
    let files = IndexFiles::of_prefix("");
    assert_eq!(files.pq_pivot, "_pq_pivots.bin");
    assert_eq!(files.compressed_pq, "_pq_compressed.bin");
    assert_eq!(files.disk_index, "_disk.index");
}

#[test]
fn example_is_accepted_when_its_files_exist() {
    assert!(example().validate(&listing(&EXAMPLE_FILES)).is_ok());
}

#[test]
fn needed_files_come_in_the_order_of_the_checks() {
    assert_eq!(example().files(), EXAMPLE_FILES);
    let mut op = example();
    op.search_phase.groundtruth = None;
    assert_eq!(op.files(), EXAMPLE_FILES[..4]);
    let mut op = example();
    load_of(&mut op).data_type = DataType::Int8;
    assert_eq!(op.files(), EXAMPLE_FILES[..3]);
    assert!(build_job().files().is_empty());
}

#[test]
fn each_missing_file_is_named() {
    let messages = [
        "pq pivot file sample_index_l50_r32_pq_pivots.bin does not exist",
        "compressed pq file sample_index_l50_r32_pq_compressed.bin does not exist",
        "disk index file sample_index_l50_r32_disk.index does not exist",
        "queries file queries.fbin does not exist",
        "groundtruth file groundtruth.ibin does not exist",
    ];
    for (i, message) in messages.iter().enumerate() {
        let mut paths = EXAMPLE_FILES.to_vec();
        paths.remove(i);
        let error = example().validate(&listing(&paths)).unwrap_err();
        assert_eq!(error.message(), *message);
    }
}

#[test]
fn search_for_files_may_stop_at_the_first_missing_one() {
    for n in 0..EXAMPLE_FILES.len() {
        let mut gap = EXAMPLE_FILES.to_vec();
        gap.remove(n);
        assert_eq!(
            example().validate(&listing(&EXAMPLE_FILES[..n])),
            example().validate(&listing(&gap)),
        );
    }
}

#[test]
fn other_files_do_not_matter() {
    let mut paths = EXAMPLE_FILES.to_vec();
    paths.push("unrelated.txt");
    assert!(example().validate(&listing(&paths)).is_ok());
    assert_eq!(
        example().validate(&listing(&["unrelated.txt"])),
        example().validate(&FileListing::new()),
    );
}

#[test]
fn groundtruth_is_optional() {
    let mut op = example();
    op.search_phase.groundtruth = None;
    assert!(op.validate(&listing(&EXAMPLE_FILES[..4])).is_ok());
}

#[test]
fn build_source_is_refused_first() {
    let error = build_job().validate(&FileListing::new()).unwrap_err();
    assert_eq!(error, JobError::BuildSource);
    assert_eq!(
        error.message(),
        "`Build` source is not implemented in this example; use `Load`"
    );
}

#[test]
fn data_types_other_than_float32_are_refused() {
    for (data_type, name) in [
        (DataType::Float16, "Float16"),
        (DataType::UInt8, "UInt8"),
        (DataType::Int8, "Int8"),
    ] {
        let mut op = example();
        load_of(&mut op).data_type = data_type;
        assert_eq!(
            refusal(&op),
            format!("this example only implements DataType::Float32 (got {name})")
        );
        assert_eq!(
            op.dispatch().unwrap_err().message(),
            format!("this example only implements Float32 (got {name})")
        );
    }
}

#[test]
fn index_is_checked_before_the_search_phase() {
    let mut op = example();
    load_of(&mut op).data_type = DataType::Int8;
    op.search_phase.queries = "missing.fbin".to_string();
    assert_eq!(
        op.validate(&listing(&EXAMPLE_FILES)),
        Err(Problem::UnsupportedDataType(DataType::Int8))
    );
}

#[test]
fn load_and_search_phase_validate_on_their_own() {
    let mut op = example();
    assert_eq!(
        load_of(&mut op).validate(&FileListing::new()),
        Err(Problem::MissingFile {
            file: JobFile::PqPivot,
            path: "sample_index_l50_r32_pq_pivots.bin".to_string(),
        })
    );
    assert!(load_of(&mut op).validate(&listing(&EXAMPLE_FILES[..3])).is_ok());
    assert!(op.search_phase.validate(&listing(&EXAMPLE_FILES[3..])).is_ok());
}

fn with(change: fn(&mut DiskSearchPhase)) -> DiskIndexOperation {
    let mut op = example();
    change(&mut op.search_phase);
    op
}

#[test]
fn settings_out_of_range_are_refused() {
    assert_eq!(
        refusal(&with(|s| s.search_list = vec![])),
        "search_list must have at least one value"
    );
    let too_small = "every search_list value must be > 0 and >= recall_at";
    assert_eq!(refusal(&with(|s| s.search_list = vec![64, 9])), too_small);
    assert_eq!(refusal(&with(|s| s.search_list = vec![64, 0, 256])), too_small);
    assert_eq!(refusal(&with(|s| s.beam_width = 0)), "beam_width must be positive");
    assert_eq!(refusal(&with(|s| s.recall_at = 0)), "recall_at must be positive");
    assert_eq!(refusal(&with(|s| s.num_threads = 0)), "num_threads must be positive");
    assert_eq!(
        refusal(&with(|s| s.vector_filters_file = Some("filters".to_string()))),
        "vector filters are not implemented in this example"
    );
}

#[test]
fn search_list_size_may_equal_recall_at() {
    let op = with(|s| s.search_list = vec![10]);
    assert!(op.validate(&listing(&EXAMPLE_FILES)).is_ok());
}

#[test]
fn zero_search_list_size_is_refused_even_without_results() {
    let op = with(|s| {
        s.search_list = vec![0];
        s.recall_at = 0;
    });
    assert_eq!(op.validate(&listing(&EXAMPLE_FILES)), Err(Problem::SearchListTooSmall));
}

#[test]
fn settings_are_checked_in_order() {
    let op = with(|s| {
        s.beam_width = 0;
        s.recall_at = 0;
        s.num_threads = 0;
        s.vector_filters_file = Some("filters".to_string());
    });
    assert_eq!(op.validate(&listing(&EXAMPLE_FILES)), Err(Problem::ZeroBeamWidth));
    let op = with(|s| {
        s.recall_at = 0;
        s.num_threads = 0;
    });
    assert_eq!(op.validate(&listing(&EXAMPLE_FILES)), Err(Problem::ZeroRecallAt));
}

#[test]
fn accepted_jobs_are_dispatched() {
    let op = example();
    assert_eq!(op.dispatch().unwrap().load_path, "sample_index_l50_r32");
}

#[test]
fn build_jobs_are_not_dispatched() {
    let op = build_job();
    assert_eq!(op.dispatch().unwrap_err(), DispatchError::BuildSource);
    assert_eq!(
        op.dispatch().unwrap_err().message(),
        "`Build` source is out of scope for this example"
    );
}

#[test]
fn measures_become_metrics() {
    assert_eq!(Metric::from(SimilarityMeasure::SquaredL2), Metric::L2);
    assert_eq!(Metric::from(SimilarityMeasure::InnerProduct), Metric::InnerProduct);
    assert_eq!(Metric::from(SimilarityMeasure::Cosine), Metric::Cosine);
    assert_eq!(
        Metric::from(SimilarityMeasure::CosineNormalized),
        Metric::CosineNormalized
    );
}
