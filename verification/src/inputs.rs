//! The job specification: which index to search, how, and whether the job can be run.

use crate::storage::{
    compressed_pq_path, disk_index_path, pq_pivot_path, FileListing, IndexFiles, JobFile,
};
use diskann_vector::distance::Metric;
use vstd::prelude::*;
use vstd::std_specs::convert::FromSpec;
use vstd::string::StringExecFns;

verus! {

/// The distance metrics of `diskann_vector`, an enum without fields: the verifier reads its
/// variants, and nothing is claimed of it.
#[verifier::external_type_specification]
pub struct ExMetric(Metric);

/// How the distance between two vectors is measured.
#[derive(Debug, Clone, Copy, PartialEq, Eq, Structural)]
pub enum SimilarityMeasure {
    SquaredL2,
    InnerProduct,
    Cosine,
    CosineNormalized,
}

impl From<SimilarityMeasure> for Metric {
    fn from(value: SimilarityMeasure) -> (metric: Metric) {
        match value {
            SimilarityMeasure::SquaredL2 => Metric::L2,
            SimilarityMeasure::InnerProduct => Metric::InnerProduct,
            SimilarityMeasure::Cosine => Metric::Cosine,
            SimilarityMeasure::CosineNormalized => Metric::CosineNormalized,
        }
    }
}

impl vstd::std_specs::convert::FromSpecImpl<SimilarityMeasure> for Metric {
    open spec fn obeys_from_spec() -> bool {
        true
    }

    open spec fn from_spec(value: SimilarityMeasure) -> Metric {
        match value {
            SimilarityMeasure::SquaredL2 => Metric::L2,
            SimilarityMeasure::InnerProduct => Metric::InnerProduct,
            SimilarityMeasure::Cosine => Metric::Cosine,
            SimilarityMeasure::CosineNormalized => Metric::CosineNormalized,
        }
    }
}

/// Different measures are different metrics.
pub proof fn law_measures_are_distinct_metrics(a: SimilarityMeasure, b: SimilarityMeasure)
    ensures
        <Metric as FromSpec<_>>::from_spec(a) == <Metric as FromSpec<_>>::from_spec(b) ==> a == b,
{
}

/// The type of a vector's components.
#[derive(Debug, Clone, Copy, PartialEq, Eq, Structural)]
pub enum DataType {
    Float32,
    Float16,
    UInt8,
    Int8,
}

impl DataType {
    /// The name of the type in messages.
    pub open spec fn name(self) -> Seq<char> {
        match self {
            DataType::Float32 => "Float32"@,
            DataType::Float16 => "Float16"@,
            DataType::UInt8 => "UInt8"@,
            DataType::Int8 => "Int8"@,
        }
    }

    /// The name of the type in messages.
    pub fn label(&self) -> (s: &'static str)
        ensures
            s@ == self.name(),
    {
        match self {
            DataType::Float32 => "Float32",
            DataType::Float16 => "Float16",
            DataType::UInt8 => "UInt8",
            DataType::Int8 => "Int8",
        }
    }
}

/// A job: the index it searches and how it searches it.
#[derive(Debug)]
pub struct DiskIndexOperation {
    pub source: DiskIndexSource,
    pub search_phase: DiskSearchPhase,
}

/// Where the index comes from: an existing index is loaded, or one is built first.
#[derive(Debug)]
pub enum DiskIndexSource {
    Load(DiskIndexLoad),
    Build(DiskIndexBuild),
}

/// An existing index.
#[derive(Debug, Clone)]
pub struct DiskIndexLoad {
    pub data_type: DataType,
    /// The path prefix of the index, without the suffixes of its files.
    pub load_path: String,
}

/// An index to be built.
#[derive(Debug, Clone)]
pub struct DiskIndexBuild {
    pub data_type: DataType,
    pub data: String,
    pub distance: SimilarityMeasure,
    pub dim: usize,
    pub max_degree: usize,
    pub l_build: usize,
    pub save_path: String,
}

/// How an index is searched. Recall is measured where `groundtruth` is given.
#[derive(Debug)]
pub struct DiskSearchPhase {
    pub queries: String,
    pub groundtruth: Option<String>,
    pub num_threads: usize,
    pub beam_width: usize,
    pub search_list: Vec<u32>,
    pub recall_at: u32,
    pub is_flat_search: bool,
    pub distance: SimilarityMeasure,
    pub vector_filters_file: Option<String>,
    pub num_nodes_to_cache: Option<usize>,
    pub search_io_limit: Option<usize>,
}

/// Why a job cannot be run. `P` is the type of a path.
#[derive(Debug, Clone, PartialEq, Eq)]
pub enum Problem<P> {
    /// The index would have to be built.
    BuildSource,
    /// A file is missing.
    MissingFile { file: JobFile, path: P },
    /// The vectors do not have components of type `Float32`.
    UnsupportedDataType(DataType),
    /// There is no search list size.
    EmptySearchList,
    /// A search list size is zero or smaller than `recall_at`.
    SearchListTooSmall,
    /// The beam is empty.
    ZeroBeamWidth,
    /// No result is asked for.
    ZeroRecallAt,
    /// There is no thread to search with.
    ZeroThreads,
    /// The job has vector filters.
    VectorFilters,
}

/// Why a job was refused.
pub type JobError = Problem<String>;

impl View for Problem<String> {
    type V = Problem<Seq<char>>;

    open spec fn view(&self) -> Problem<Seq<char>> {
        match *self {
            Problem::BuildSource => Problem::BuildSource,
            Problem::MissingFile { file, path } => Problem::MissingFile { file, path: path@ },
            Problem::UnsupportedDataType(data_type) => Problem::UnsupportedDataType(data_type),
            Problem::EmptySearchList => Problem::EmptySearchList,
            Problem::SearchListTooSmall => Problem::SearchListTooSmall,
            Problem::ZeroBeamWidth => Problem::ZeroBeamWidth,
            Problem::ZeroRecallAt => Problem::ZeroRecallAt,
            Problem::ZeroThreads => Problem::ZeroThreads,
            Problem::VectorFilters => Problem::VectorFilters,
        }
    }
}

impl Problem<Seq<char>> {
    /// The message that tells of the problem.
    pub open spec fn text(self) -> Seq<char> {
        match self {
            Problem::BuildSource => {
                "`Build` source is not implemented in this example; use `Load`"@
            },
            Problem::MissingFile { file, path } => file.name() + " "@ + path + " does not exist"@,
            Problem::UnsupportedDataType(data_type) => {
                "this example only implements DataType::Float32 (got "@ + data_type.name() + ")"@
            },
            Problem::EmptySearchList => "search_list must have at least one value"@,
            Problem::SearchListTooSmall => {
                "every search_list value must be > 0 and >= recall_at"@
            },
            Problem::ZeroBeamWidth => "beam_width must be positive"@,
            Problem::ZeroRecallAt => "recall_at must be positive"@,
            Problem::ZeroThreads => "num_threads must be positive"@,
            Problem::VectorFilters => "vector filters are not implemented in this example"@,
        }
    }
}

impl Problem<String> {
    /// The message that tells of the problem.
    pub fn message(&self) -> (s: String)
        ensures
            s@ == self@.text(),
    {
        match self {
            Problem::BuildSource => String::from_str(
                "`Build` source is not implemented in this example; use `Load`",
            ),
            Problem::MissingFile { file, path } => String::from_str(file.label()).concat(
                " ",
            ).concat(path.as_str()).concat(" does not exist"),
            Problem::UnsupportedDataType(data_type) => String::from_str(
                "this example only implements DataType::Float32 (got ",
            ).concat(data_type.label()).concat(")"),
            Problem::EmptySearchList => String::from_str(
                "search_list must have at least one value",
            ),
            Problem::SearchListTooSmall => String::from_str(
                "every search_list value must be > 0 and >= recall_at",
            ),
            Problem::ZeroBeamWidth => String::from_str("beam_width must be positive"),
            Problem::ZeroRecallAt => String::from_str("recall_at must be positive"),
            Problem::ZeroThreads => String::from_str("num_threads must be positive"),
            Problem::VectorFilters => String::from_str(
                "vector filters are not implemented in this example",
            ),
        }
    }
}

/// `r` reports `problem`, and success where there is none.
pub open spec fn reports(r: Result<(), JobError>, problem: Option<Problem<Seq<char>>>) -> bool {
    match r {
        Ok(_) => problem is None,
        Err(e) => problem == Some(e@),
    }
}

/// The problem of a job that needs `file` at `path`, where only the files in `present` exist.
pub open spec fn missing(
    present: Set<Seq<char>>,
    file: JobFile,
    path: Seq<char>,
) -> Option<Problem<Seq<char>>> {
    if present.contains(path) {
        None
    } else {
        Some(Problem::MissingFile { file, path })
    }
}

/// The first problem of two checks, the second of which is made if the first finds none.
pub open spec fn and_also(
    first: Option<Problem<Seq<char>>>,
    second: Option<Problem<Seq<char>>>,
) -> Option<Problem<Seq<char>>> {
    if first is Some {
        first
    } else {
        second
    }
}

/// `problem`, unless `holds`.
pub open spec fn unless(holds: bool, problem: Problem<Seq<char>>) -> Option<
    Problem<Seq<char>>,
> {
    if holds {
        None
    } else {
        Some(problem)
    }
}

impl DiskIndexLoad {
    /// The first problem of loading the index, where only the files in `present` exist.
    pub open spec fn problem(self, present: Set<Seq<char>>) -> Option<Problem<Seq<char>>> {
        let prefix = self.load_path@;
        and_also(
            missing(present, JobFile::PqPivot, pq_pivot_path(prefix)),
            and_also(
                missing(present, JobFile::CompressedPq, compressed_pq_path(prefix)),
                and_also(
                    missing(present, JobFile::DiskIndex, disk_index_path(prefix)),
                    unless(
                        self.data_type is Float32,
                        Problem::UnsupportedDataType(self.data_type),
                    ),
                ),
            ),
        )
    }

    /// The three files of the index.
    pub fn files(&self) -> (files: IndexFiles)
        ensures
            files.belong_to(self.load_path@),
    {
        IndexFiles::of_prefix(self.load_path.as_str())
    }

    /// Checks that the three files of the index exist and that its vectors are `Float32`.
    pub fn validate(&self, storage: &FileListing) -> (r: Result<(), JobError>)
        ensures
            reports(r, self.problem(storage@)),
    {
        let files = self.files();
        if !storage.contains(&files.pq_pivot) {
            return Err(Problem::MissingFile { file: JobFile::PqPivot, path: files.pq_pivot });
        }
        if !storage.contains(&files.compressed_pq) {
            return Err(
                Problem::MissingFile { file: JobFile::CompressedPq, path: files.compressed_pq },
            );
        }
        if !storage.contains(&files.disk_index) {
            return Err(Problem::MissingFile { file: JobFile::DiskIndex, path: files.disk_index });
        }
        if self.data_type != DataType::Float32 {
            return Err(Problem::UnsupportedDataType(self.data_type));
        }
        Ok(())
    }
}

impl DiskSearchPhase {
    /// Every search list has a place for each result, and is not empty.
    pub open spec fn search_lists_suffice(self) -> bool {
        forall|i: int|
            0 <= i < self.search_list@.len() ==> #[trigger] self.search_list@[i] > 0
                && self.search_list@[i] >= self.recall_at
    }

    /// The first problem of the search phase, where only the files in `present` exist.
    pub open spec fn problem(self, present: Set<Seq<char>>) -> Option<Problem<Seq<char>>> {
        and_also(
            missing(present, JobFile::Queries, self.queries@),
            and_also(
                match self.groundtruth {
                    Some(path) => missing(present, JobFile::Groundtruth, path@),
                    None => None,
                },
                self.settings_problem(),
            ),
        )
    }

    /// The first problem of the search phase apart from its files.
    pub open spec fn settings_problem(self) -> Option<Problem<Seq<char>>> {
        and_also(
            unless(self.search_list@.len() > 0, Problem::EmptySearchList),
            and_also(
                unless(self.search_lists_suffice(), Problem::SearchListTooSmall),
                and_also(
                    unless(self.beam_width > 0, Problem::ZeroBeamWidth),
                    and_also(
                        unless(self.recall_at > 0, Problem::ZeroRecallAt),
                        and_also(
                            unless(self.num_threads > 0, Problem::ZeroThreads),
                            unless(self.vector_filters_file is None, Problem::VectorFilters),
                        ),
                    ),
                ),
            ),
        )
    }

    /// Whether every search list has a place for each result, and is not empty.
    fn check_search_lists(&self) -> (b: bool)
        ensures
            b == self.search_lists_suffice(),
    {
        let mut i: usize = 0;
        while i < self.search_list.len()
            invariant
                i <= self.search_list@.len(),
                forall|j: int|
                    0 <= j < i ==> #[trigger] self.search_list@[j] > 0 && self.search_list@[j]
                        >= self.recall_at,
            decreases self.search_list@.len() - i,
        {
            let l: u32 = self.search_list[i];
            if l == 0 || l < self.recall_at {
                return false;
            }
            i += 1;
        }
        true
    }

    /// Checks that the files of the search phase exist and that its settings make sense.
    pub fn validate(&self, storage: &FileListing) -> (r: Result<(), JobError>)
        ensures
            reports(r, self.problem(storage@)),
    {
        if !storage.contains(&self.queries) {
            return Err(
                Problem::MissingFile { file: JobFile::Queries, path: self.queries.clone() },
            );
        }
        if let Some(gt) = &self.groundtruth {
            if !storage.contains(gt) {
                return Err(Problem::MissingFile { file: JobFile::Groundtruth, path: gt.clone() });
            }
        }
        if self.search_list.len() == 0 {
            return Err(Problem::EmptySearchList);
        }
        if !self.check_search_lists() {
            return Err(Problem::SearchListTooSmall);
        }
        if self.beam_width == 0 {
            return Err(Problem::ZeroBeamWidth);
        }
        if self.recall_at == 0 {
            return Err(Problem::ZeroRecallAt);
        }
        if self.num_threads == 0 {
            return Err(Problem::ZeroThreads);
        }
        if self.vector_filters_file.is_some() {
            return Err(Problem::VectorFilters);
        }
        Ok(())
    }
}

impl DiskIndexOperation {
    /// The first problem of the job, where only the files in `present` exist.
    pub open spec fn problem(self, present: Set<Seq<char>>) -> Option<Problem<Seq<char>>> {
        match self.source {
            DiskIndexSource::Load(load) => and_also(
                load.problem(present),
                self.search_phase.problem(present),
            ),
            DiskIndexSource::Build(_) => Some(Problem::BuildSource),
        }
    }

    /// Checks that the job can be run: first the index, then the search phase. `storage` lists
    /// the files that exist, as far as the job needs them.
    pub fn validate(&self, storage: &FileListing) -> (r: Result<(), JobError>)
        ensures
            reports(r, self.problem(storage@)),
    {
        match &self.source {
            DiskIndexSource::Load(load) => {
                match load.validate(storage) {
                    Ok(_) => {},
                    Err(e) => {
                        return Err(e);
                    },
                }
            },
            DiskIndexSource::Build(_) => {
                return Err(Problem::BuildSource);
            },
        }
        self.search_phase.validate(storage)
    }

    /// The paths that the checks of the job look for, in the order of the checks. An index
    /// that is refused for its data type keeps the search phase from being looked at.
    pub open spec fn needed_files(self) -> Seq<Seq<char>> {
        match self.source {
            DiskIndexSource::Load(load) => {
                let prefix = load.load_path@;
                let index = seq![
                    pq_pivot_path(prefix),
                    compressed_pq_path(prefix),
                    disk_index_path(prefix),
                ];
                if load.data_type is Float32 {
                    match self.search_phase.groundtruth {
                        Some(path) => index.push(self.search_phase.queries@).push(path@),
                        None => index.push(self.search_phase.queries@),
                    }
                } else {
                    index
                }
            },
            DiskIndexSource::Build(_) => Seq::empty(),
        }
    }

    /// The paths to look for before the job is validated, in the order of the checks.
    pub fn files(&self) -> (paths: Vec<String>)
        ensures
            paths@.map_values(|p: String| p@) == self.needed_files(),
    {
        let mut paths: Vec<String> = Vec::new();
        if let DiskIndexSource::Load(load) = &self.source {
            let index = load.files();
            paths.push(index.pq_pivot);
            paths.push(index.compressed_pq);
            paths.push(index.disk_index);
            if load.data_type == DataType::Float32 {
                paths.push(self.search_phase.queries.clone());
                if let Some(gt) = &self.search_phase.groundtruth {
                    paths.push(gt.clone());
                }
            }
        }
        assert(paths@.map_values(|p: String| p@) =~= self.needed_files());
        paths
    }

    /// The job can be run: it loads an index of `Float32` vectors, every file that it needs
    /// is there, and each setting is in its range.
    pub open spec fn runnable(self, present: Set<Seq<char>>) -> bool {
        let search = self.search_phase;
        &&& self.source matches DiskIndexSource::Load(load)
        &&& load.data_type is Float32
        &&& forall|i: int|
            0 <= i < self.needed_files().len() ==> present.contains(
                #[trigger] self.needed_files()[i],
            )
        &&& search.search_list@.len() > 0
        &&& search.search_lists_suffice()
        &&& search.beam_width > 0
        &&& search.recall_at > 0
        &&& search.num_threads > 0
        &&& search.vector_filters_file is None
    }

    /// The index that the job loads, if the job is of a kind that is run.
    pub open spec fn dispatched(self) -> Result<DiskIndexLoad, DispatchError> {
        match self.source {
            DiskIndexSource::Load(load) => if load.data_type is Float32 {
                Ok(load)
            } else {
                Err(DispatchError::UnsupportedDataType(load.data_type))
            },
            DiskIndexSource::Build(_) => Err(DispatchError::BuildSource),
        }
    }

    /// The index that the job loads, if the job is of a kind that is run.
    pub fn dispatch(&self) -> (r: Result<&DiskIndexLoad, DispatchError>)
        ensures
            match r {
                Ok(load) => self.dispatched() == Ok::<DiskIndexLoad, DispatchError>(*load),
                Err(e) => self.dispatched() == Err::<DiskIndexLoad, DispatchError>(e),
            },
    {
        match &self.source {
            DiskIndexSource::Load(load) => match load.data_type {
                DataType::Float32 => Ok(load),
                other => Err(DispatchError::UnsupportedDataType(other)),
            },
            DiskIndexSource::Build(_) => Err(DispatchError::BuildSource),
        }
    }
}

/// Why a job is of a kind that is not run.
#[derive(Debug, Clone, Copy, PartialEq, Eq, Structural)]
pub enum DispatchError {
    /// The vectors do not have components of type `Float32`.
    UnsupportedDataType(DataType),
    /// The index would have to be built.
    BuildSource,
}

impl DispatchError {
    /// The message that tells of the error.
    pub open spec fn text(self) -> Seq<char> {
        match self {
            DispatchError::UnsupportedDataType(data_type) => {
                "this example only implements Float32 (got "@ + data_type.name() + ")"@
            },
            DispatchError::BuildSource => "`Build` source is out of scope for this example"@,
        }
    }

    /// The message that tells of the error.
    pub fn message(&self) -> (s: String)
        ensures
            s@ == self.text(),
    {
        match self {
            DispatchError::UnsupportedDataType(data_type) => String::from_str(
                "this example only implements Float32 (got ",
            ).concat(data_type.label()).concat(")"),
            DispatchError::BuildSource => String::from_str(
                "`Build` source is out of scope for this example",
            ),
        }
    }
}

/// A job specification that shows all settings.
pub fn example() -> (op: DiskIndexOperation)
    ensures
        op.source matches DiskIndexSource::Load(load) && load.data_type is Float32
            && load.load_path@ == "sample_index_l50_r32"@,
        op.search_phase.queries@ == "queries.fbin"@,
        op.search_phase.groundtruth matches Some(path) && path@ == "groundtruth.ibin"@,
        op.search_phase.num_threads == 8,
        op.search_phase.beam_width == 4,
        op.search_phase.search_list@ == seq![64u32, 128u32, 256u32],
        op.search_phase.recall_at == 10,
        !op.search_phase.is_flat_search,
        op.search_phase.distance is SquaredL2,
        op.search_phase.vector_filters_file is None,
        op.search_phase.num_nodes_to_cache is None,
        op.search_phase.search_io_limit is None,
{
    DiskIndexOperation {
        source: DiskIndexSource::Load(
            DiskIndexLoad {
                data_type: DataType::Float32,
                load_path: String::from_str("sample_index_l50_r32"),
            },
        ),
        search_phase: DiskSearchPhase {
            queries: String::from_str("queries.fbin"),
            groundtruth: Some(String::from_str("groundtruth.ibin")),
            num_threads: 8,
            beam_width: 4,
            search_list: vec![64, 128, 256],
            recall_at: 10,
            is_flat_search: false,
            distance: SimilarityMeasure::SquaredL2,
            vector_filters_file: None,
            num_nodes_to_cache: None,
            search_io_limit: None,
        },
    }
}

/// The needed files, one by one.
proof fn lemma_needed_files(op: DiskIndexOperation)
    ensures
        op.source matches DiskIndexSource::Load(load) ==> {
            let files = op.needed_files();
            &&& files[0] == pq_pivot_path(load.load_path@)
            &&& files[1] == compressed_pq_path(load.load_path@)
            &&& files[2] == disk_index_path(load.load_path@)
            &&& load.data_type is Float32 ==> files[3] == op.search_phase.queries@
            &&& load.data_type is Float32 ==> (op.search_phase.groundtruth matches Some(path)
                ==> files[4] == path@)
        },
{
}

/// Validation accepts a job if and only if the job can be run.
pub proof fn law_validation_accepts_runnable_jobs(
    op: DiskIndexOperation,
    present: Set<Seq<char>>,
)
    ensures
        op.problem(present) is None <==> op.runnable(present),
{
    lemma_needed_files(op);
}

/// A job that was accepted is not refused when it is dispatched.
pub proof fn law_accepted_jobs_are_dispatched(op: DiskIndexOperation, present: Set<Seq<char>>)
    requires
        op.problem(present) is None,
    ensures
        op.source matches DiskIndexSource::Load(load) && op.dispatched() == Ok::<
            DiskIndexLoad,
            DispatchError,
        >(load),
{
}

/// A file that comes in addition never turns an accepted job into a refused one.
pub proof fn law_more_files_do_no_harm(
    op: DiskIndexOperation,
    present: Set<Seq<char>>,
    more: Set<Seq<char>>,
)
    requires
        present.subset_of(more),
        op.problem(present) is None,
    ensures
        op.problem(more) is None,
{
}

/// Only the files that the job needs matter: storages that agree on them get the same answer.
pub proof fn law_only_needed_files_matter(
    op: DiskIndexOperation,
    a: Set<Seq<char>>,
    b: Set<Seq<char>>,
)
    requires
        forall|i: int|
            0 <= i < op.needed_files().len() ==> a.contains(#[trigger] op.needed_files()[i])
                == b.contains(op.needed_files()[i]),
    ensures
        op.problem(a) == op.problem(b),
{
    lemma_needed_files(op);
}

/// The files may be looked for one by one up to the first one that is missing: a listing of
/// the `n` files before it gives the same answer as a listing of all files.
pub proof fn law_search_may_stop_at_first_missing_file(
    op: DiskIndexOperation,
    present: Set<Seq<char>>,
    n: int,
)
    requires
        0 <= n <= op.needed_files().len(),
        forall|i: int| 0 <= i < n ==> present.contains(#[trigger] op.needed_files()[i]),
        n < op.needed_files().len() ==> !present.contains(op.needed_files()[n]),
    ensures
        op.problem(op.needed_files().take(n).to_set()) == op.problem(present),
{
    let files = op.needed_files();
    let found = files.take(n).to_set();
    assert forall|i: int| 0 <= i < n implies found.contains(#[trigger] files[i]) by {
        assert(files.take(n)[i] == files[i]);
    }
    assert forall|x: Seq<char>| found.contains(x) implies present.contains(x) by {
        let i = choose|i: int| 0 <= i < n && files.take(n)[i] == x;
        assert(files[i] == x);
    }
    lemma_needed_files(op);
}

/// Which problem of an index is reported: the first file that is missing, or else its data
/// type. The three files are the prefix with its three suffixes.
pub proof fn law_problem_of_index(load: DiskIndexLoad, present: Set<Seq<char>>)
    ensures
        ({
            let pivots = load.load_path@ + "_pq_pivots.bin"@;
            let compressed = load.load_path@ + "_pq_compressed.bin"@;
            let graph = load.load_path@ + "_disk.index"@;
            let problem = load.problem(present);
            &&& problem is None <==> present.contains(pivots) && present.contains(compressed)
                && present.contains(graph) && load.data_type is Float32
            &&& !present.contains(pivots) ==> problem == Some(
                Problem::MissingFile { file: JobFile::PqPivot, path: pivots },
            )
            &&& present.contains(pivots) && !present.contains(compressed) ==> problem == Some(
                Problem::MissingFile { file: JobFile::CompressedPq, path: compressed },
            )
            &&& present.contains(pivots) && present.contains(compressed) && !present.contains(
                graph,
            ) ==> problem == Some(Problem::MissingFile { file: JobFile::DiskIndex, path: graph })
            &&& present.contains(pivots) && present.contains(compressed) && present.contains(graph)
                && !(load.data_type is Float32) ==> problem == Some(
                Problem::<Seq<char>>::UnsupportedDataType(load.data_type),
            )
        }),
{
}

/// The files of a search phase are there.
pub open spec fn search_files_present(search: DiskSearchPhase, present: Set<Seq<char>>) -> bool {
    &&& present.contains(search.queries@)
    &&& search.groundtruth matches Some(path) ==> present.contains(path@)
}

/// Every search list size is positive and no smaller than the number of results.
pub open spec fn sizes_in_range(sizes: Seq<u32>, recall_at: u32) -> bool {
    forall|i: int| 0 <= i < sizes.len() ==> 0 < #[trigger] sizes[i] && recall_at <= sizes[i]
}

/// Which problem of a search phase is reported: each one exactly where the phase has it and
/// none that is checked before it.
pub proof fn law_problem_of_search_phase(search: DiskSearchPhase, present: Set<Seq<char>>)
    ensures
        ({
            let problem = search.problem(present);
            let files = search_files_present(search, present);
            let filled = files && search.search_list@.len() > 0;
            let ranged = filled && sizes_in_range(search.search_list@, search.recall_at);
            let beamed = ranged && search.beam_width > 0;
            let asked = beamed && search.recall_at > 0;
            let threaded = asked && search.num_threads > 0;
            &&& problem == Some(
                Problem::MissingFile { file: JobFile::Queries, path: search.queries@ },
            ) <==> !present.contains(search.queries@)
            &&& search.groundtruth matches Some(path) ==> (problem == Some(
                Problem::MissingFile { file: JobFile::Groundtruth, path: path@ },
            ) <==> present.contains(search.queries@) && !present.contains(path@))
            &&& problem == Some(Problem::<Seq<char>>::EmptySearchList) <==> files && !filled
            &&& problem == Some(Problem::<Seq<char>>::SearchListTooSmall) <==> filled && !ranged
            &&& problem == Some(Problem::<Seq<char>>::ZeroBeamWidth) <==> ranged && !beamed
            &&& problem == Some(Problem::<Seq<char>>::ZeroRecallAt) <==> beamed && !asked
            &&& problem == Some(Problem::<Seq<char>>::ZeroThreads) <==> asked && !threaded
            &&& problem == Some(Problem::<Seq<char>>::VectorFilters) <==> threaded
                && search.vector_filters_file is Some
            &&& problem is None <==> threaded && search.vector_filters_file is None
        }),
{
    assert(sizes_in_range(search.search_list@, search.recall_at)
        == search.search_lists_suffice());
}

/// Which problem of a job is reported: that of its source, and that of its search phase where
/// the source has none. A source that would have to be built is refused, whatever exists.
pub proof fn law_problem_of_job(op: DiskIndexOperation, present: Set<Seq<char>>)
    ensures
        op.source is Build <==> op.problem(present) == Some(Problem::<Seq<char>>::BuildSource),
        op.source matches DiskIndexSource::Load(load) ==> {
            &&& load.problem(present) is Some ==> op.problem(present) == load.problem(present)
            &&& load.problem(present) is None ==> op.problem(present) == op.search_phase.problem(
                present,
            )
        },
{
}

/// What a validation returns is what is wrong: success where there is no problem, and
/// otherwise an error that names the problem and the path that belongs to it.
pub proof fn law_validation_reports_the_problem(
    r: Result<(), JobError>,
    problem: Option<Problem<Seq<char>>>,
)
    requires
        reports(r, problem),
    ensures
        r is Ok <==> problem is None,
        r matches Err(e) ==> match (e, problem->0) {
            (
                Problem::MissingFile { file: a, path: p },
                Problem::MissingFile { file: b, path: q },
            ) => a == b && p@ == q,
            (Problem::UnsupportedDataType(a), Problem::UnsupportedDataType(b)) => a == b,
            (Problem::BuildSource, Problem::BuildSource) => true,
            (Problem::EmptySearchList, Problem::EmptySearchList) => true,
            (Problem::SearchListTooSmall, Problem::SearchListTooSmall) => true,
            (Problem::ZeroBeamWidth, Problem::ZeroBeamWidth) => true,
            (Problem::ZeroRecallAt, Problem::ZeroRecallAt) => true,
            (Problem::ZeroThreads, Problem::ZeroThreads) => true,
            (Problem::VectorFilters, Problem::VectorFilters) => true,
            _ => false,
        },
{
}

/// The message of a missing file names its path between the file's name and the end.
pub proof fn law_missing_file_is_named(file: JobFile, path: Seq<char>)
    ensures
        ({
            let text = (Problem::MissingFile { file, path }).text();
            let from = file.name().len() as int + 1;
            let to = from + path.len();
            &&& file.name().is_prefix_of(text)
            &&& text[from - 1] == ' '
            &&& text.subrange(from, to) == path
            &&& text.skip(to) == " does not exist"@
        }),
{
    reveal_strlit(" ");
    let text = (Problem::MissingFile { file, path }).text();
    let from = file.name().len() as int + 1;
    let to = from + path.len();
    assert(text.subrange(0, from - 1) =~= file.name());
    assert(text.subrange(from, to) =~= path);
    assert(text.skip(to) =~= " does not exist"@);
}

/// The message of a data type that is refused ends with the name of the type.
pub proof fn law_refused_data_type_is_named(data_type: DataType)
    ensures
        (data_type.name() + ")"@).is_suffix_of(
            Problem::<Seq<char>>::UnsupportedDataType(data_type).text(),
        ),
        (data_type.name() + ")"@).is_suffix_of(
            DispatchError::UnsupportedDataType(data_type).text(),
        ),
        data_type.name() == (match data_type {
            DataType::Float32 => seq!['F', 'l', 'o', 'a', 't', '3', '2'],
            DataType::Float16 => seq!['F', 'l', 'o', 'a', 't', '1', '6'],
            DataType::UInt8 => seq!['U', 'I', 'n', 't', '8'],
            DataType::Int8 => seq!['I', 'n', 't', '8'],
        }),
{
    reveal_strlit("Float32");
    reveal_strlit("Float16");
    reveal_strlit("UInt8");
    reveal_strlit("Int8");
    assert(data_type.name() =~= (match data_type {
        DataType::Float32 => seq!['F', 'l', 'o', 'a', 't', '3', '2'],
        DataType::Float16 => seq!['F', 'l', 'o', 'a', 't', '1', '6'],
        DataType::UInt8 => seq!['U', 'I', 'n', 't', '8'],
        DataType::Int8 => seq!['I', 'n', 't', '8'],
    }));
}

/// What is looked for before a job is validated: the three files of the index, and behind
/// them the queries and the ground truth, unless the index is refused anyway.
pub proof fn law_files_to_look_for(op: DiskIndexOperation)
    ensures
        op.source is Build ==> op.needed_files().len() == 0,
        op.source matches DiskIndexSource::Load(load) ==> {
            let files = op.needed_files();
            let search = load.data_type is Float32;
            &&& files.len() == 3 + (if search {
                1int
            } else {
                0
            }) + (if search && op.search_phase.groundtruth is Some {
                1int
            } else {
                0
            })
            &&& files[0] == load.load_path@ + "_pq_pivots.bin"@
            &&& files[1] == load.load_path@ + "_pq_compressed.bin"@
            &&& files[2] == load.load_path@ + "_disk.index"@
            &&& search ==> files[3] == op.search_phase.queries@
            &&& search ==> (op.search_phase.groundtruth matches Some(path) ==> files[4] == path@)
        },
{
}

/// A job is dispatched exactly where it loads an index of `Float32` vectors, and then that
/// index is what it is dispatched to. Any other job is refused for what it is.
pub proof fn law_dispatch(op: DiskIndexOperation)
    ensures
        op.dispatched() matches Ok(load) ==> op.source == DiskIndexSource::Load(load)
            && load.data_type is Float32,
        op.dispatched() == Err::<DiskIndexLoad, DispatchError>(DispatchError::BuildSource)
            <==> op.source is Build,
        op.source matches DiskIndexSource::Load(load) ==> (op.dispatched() is Ok
            <==> load.data_type is Float32),
        op.dispatched() matches Err(DispatchError::UnsupportedDataType(data_type)) ==> (op.source
            matches DiskIndexSource::Load(load) && load.data_type == data_type),
{
}

/// The metric of a measure is the one of that name.
pub proof fn law_measures_keep_their_names(measure: SimilarityMeasure)
    ensures
        <Metric as FromSpec<_>>::from_spec(measure) is L2 <==> measure is SquaredL2,
        <Metric as FromSpec<_>>::from_spec(measure) is InnerProduct <==> measure is InnerProduct,
        <Metric as FromSpec<_>>::from_spec(measure) is Cosine <==> measure is Cosine,
        <Metric as FromSpec<_>>::from_spec(measure) is CosineNormalized <==> measure
            is CosineNormalized,
{
}

} // verus!
